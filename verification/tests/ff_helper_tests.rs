use ff_helper::error::FfError;
use ff_helper::frame::RgbaFrame;
use ff_helper::helper::{
    av_time_base, get_duration, get_info, get_rotation, millisecond, normalize_rotation, MediaProbe,
    VideoInfo, VideoStreamProbe,
};
use ff_helper::preview::{assemble_preview, collect_frames, compose_preview, preview_layout, FramePos};
use ff_helper::rational::{rescale_q, Rational};
use ff_helper::screengen::{
    decode_step, finish_screenshot, frame_size, pack_plane, plan_screenshot, screenshot_from_plane,
    DecodeAction, DecodeEvent,
    ReceiveOutcome, ScreenshotPlan,
};

fn stream(rotation: Option<i32>, size: Result<(u32, u32), i32>) -> VideoStreamProbe {
    VideoStreamProbe {
        index: 0,
        time_base: Rational { num: 1, den: 90000 },
        display_rotation: rotation,
        decoder_size: size,
    }
}

fn probe(duration: i64, video: Option<VideoStreamProbe>) -> MediaProbe {
    MediaProbe { duration, video }
}

fn plan(rotation: i32, width: u32, height: u32) -> ScreenshotPlan {
    ScreenshotPlan {
        stream_index: 0,
        rotation,
        width,
        height,
        seek_min_ts: 0,
        seek_ts: 0,
        seek_max_ts: 0,
    }
}

fn pixel(r: u8, g: u8, b: u8, a: u8) -> Vec<u8> {
    vec![r, g, b, a]
}

#[test]
fn rescale_milliseconds_to_stream_time_base() {
    let tb = Rational { num: 1, den: 90000 };
    assert_eq!(rescale_q(1500, millisecond(), tb), 135000);
    assert_eq!(rescale_q(0, millisecond(), tb), 0);
}

#[test]
fn rescale_rounds_half_away_from_zero() {
    assert_eq!(rescale_q(1_234_567, av_time_base(), millisecond()), 1235);
    assert_eq!(rescale_q(1_234_500, av_time_base(), millisecond()), 1235);
    assert_eq!(rescale_q(1_234_499, av_time_base(), millisecond()), 1234);
    assert_eq!(rescale_q(-1_500, av_time_base(), millisecond()), -2);
    assert_eq!(rescale_q(-1_499, av_time_base(), millisecond()), -1);
}

#[test]
fn rescale_without_value() {
    // the divisor cq.num * bq.den is 0
    assert_eq!(rescale_q(10, Rational { num: 1, den: 0 }, millisecond()), i64::MIN);
    // the factor bq.num * cq.den is negative
    assert_eq!(rescale_q(10, Rational { num: -1, den: 1 }, millisecond()), i64::MIN);
    // the result does not fit
    assert_eq!(rescale_q(i64::MAX, Rational { num: 1000, den: 1 }, Rational { num: 1, den: 1 }), i64::MIN);
    assert_eq!(rescale_q(i64::MIN + 1, Rational { num: 1000, den: 1 }, Rational { num: 1, den: 1 }), i64::MIN);
}

#[test]
fn rescale_between_equal_time_bases_is_identity() {
    let q = Rational { num: 1001, den: 30000 };
    for a in [-5i64, 0, 1, 7, 123456789, i64::MAX, i64::MIN + 1] {
        assert_eq!(rescale_q(a, q, q), a);
    }
    // i64::MIN counts as -i64::MAX
    assert_eq!(rescale_q(i64::MIN, q, q), -i64::MAX);
}

#[test]
fn duration_in_milliseconds() {
    let p = probe(10_000_000, None);
    assert_eq!(get_duration(&p), Ok(10_000));
    let p = probe(2_999_499, None);
    assert_eq!(get_duration(&p), Ok(2_999));
    let p = probe(i64::MIN, None);
    assert_eq!(get_duration(&p), Ok(-9_223_372_036_854_776));
}

#[test]
fn rotation_is_normalized() {
    assert_eq!(normalize_rotation(-90), 270);
    assert_eq!(normalize_rotation(90), 90);
    assert_eq!(normalize_rotation(0), 0);
    assert_eq!(normalize_rotation(-180), 180);
    assert_eq!(normalize_rotation(180), 180);
    assert_eq!(normalize_rotation(360), 0);
    assert_eq!(normalize_rotation(-400), -40);
}

#[test]
fn rotation_of_probe() {
    assert_eq!(get_rotation(&probe(0, None)), Err(FfError::NoVideoStream));
    assert_eq!(get_rotation(&probe(0, Some(stream(None, Ok((4, 2)))))), Ok(0));
    assert_eq!(get_rotation(&probe(0, Some(stream(Some(-90), Ok((4, 2)))))), Ok(270));
}

#[test]
fn info_of_rotated_video() {
    let p = probe(5_000_400, Some(stream(Some(-90), Ok((1920, 1080)))));
    let info = get_info(&p).unwrap();
    assert_eq!(
        info,
        VideoInfo {
            rotation: 270,
            should_swap: true,
            duration: 5000,
            width: 1920,
            height: 1080,
            display_width: 1080,
            display_height: 1920,
        }
    );
}

#[test]
fn info_of_upright_and_upside_down_video() {
    let info = get_info(&probe(0, Some(stream(None, Ok((640, 480)))))).unwrap();
    assert!(!info.should_swap);
    assert_eq!((info.display_width, info.display_height), (640, 480));
    let info = get_info(&probe(0, Some(stream(Some(180), Ok((640, 480)))))).unwrap();
    assert_eq!(info.rotation, 180);
    assert!(!info.should_swap);
    assert_eq!((info.display_width, info.display_height), (640, 480));
}

#[test]
fn info_errors() {
    assert_eq!(get_info(&probe(0, None)), Err(FfError::NoVideoStream));
    assert_eq!(get_info(&probe(0, Some(stream(None, Err(-22))))), Err(FfError::Ffmpeg(-22)));
}

#[test]
fn video_info_default_is_zero() {
    let info = VideoInfo::default();
    assert_eq!(info.rotation, 0);
    assert!(!info.should_swap);
    assert_eq!(info.duration, 0);
    assert_eq!((info.width, info.height, info.display_width, info.display_height), (0, 0, 0, 0));
}

#[test]
fn frame_size_falls_back_and_swaps() {
    let info = get_info(&probe(0, Some(stream(Some(90), Ok((1920, 1080)))))).unwrap();
    assert_eq!(frame_size(&info, None, None), (1920, 1080));
    assert_eq!(frame_size(&info, Some(540), Some(960)), (960, 540));
    assert_eq!(frame_size(&info, Some(540), None), (1920, 540));
    let info = get_info(&probe(0, Some(stream(None, Ok((1920, 1080)))))).unwrap();
    assert_eq!(frame_size(&info, Some(320), None), (320, 1080));
}

#[test]
fn plan_of_screenshot() {
    let p = probe(60_000_000, Some(stream(Some(90), Ok((1920, 1080)))));
    let plan = plan_screenshot(&p, 1500, Some(540), Some(960)).unwrap();
    assert_eq!(
        plan,
        ScreenshotPlan {
            stream_index: 0,
            rotation: 90,
            width: 960,
            height: 540,
            seek_min_ts: 0,
            seek_ts: 135_000,
            seek_max_ts: 225_000,
        }
    );
    assert_eq!(plan_screenshot(&probe(0, None), 0, None, None), Err(FfError::NoVideoStream));
}

#[test]
fn decoding_steps() {
    let p = plan(0, 2, 2);
    assert_eq!(decode_step(&p, DecodeEvent::Packet { stream_index: 1 }), DecodeAction::ReadPacket);
    assert_eq!(decode_step(&p, DecodeEvent::Packet { stream_index: 0 }), DecodeAction::SendPacket);
    assert_eq!(decode_step(&p, DecodeEvent::Sent(Ok(()))), DecodeAction::ReceiveFrame);
    assert_eq!(
        decode_step(&p, DecodeEvent::Sent(Err(-5))),
        DecodeAction::Fail(FfError::Ffmpeg(-5))
    );
    assert_eq!(
        decode_step(&p, DecodeEvent::Received(ReceiveOutcome::Again)),
        DecodeAction::ReadPacket
    );
    assert_eq!(
        decode_step(&p, DecodeEvent::Received(ReceiveOutcome::Failed(-1094995529))),
        DecodeAction::Fail(FfError::Ffmpeg(-1094995529))
    );
    assert_eq!(
        decode_step(&p, DecodeEvent::Received(ReceiveOutcome::Frame { empty: true })),
        DecodeAction::ReadPacket
    );
    assert_eq!(
        decode_step(&p, DecodeEvent::Received(ReceiveOutcome::Frame { empty: false })),
        DecodeAction::ScaleFrame
    );
    assert_eq!(decode_step(&p, DecodeEvent::EndOfPackets), DecodeAction::ScaleFrame);
}

/// A 2 by 1 image: pixel (0, 0) is a, pixel (1, 0) is b.
fn two_pixels() -> Vec<u8> {
    let mut v = pixel(1, 2, 3, 255);
    v.extend(pixel(4, 5, 6, 255));
    v
}

#[test]
fn finish_unrotated_keeps_buffer() {
    let buf = vec![9u8; 10];
    assert_eq!(finish_screenshot(&plan(0, 2, 1), buf.clone()), Ok((buf, 2, 1)));
}

#[test]
fn finish_with_short_buffer() {
    assert_eq!(finish_screenshot(&plan(90, 2, 2), vec![0u8; 15]), Err(FfError::CannotCreateImage));
    assert_eq!(finish_screenshot(&plan(45, 2, 2), vec![0u8; 15]), Err(FfError::CannotCreateImage));
}

#[test]
fn finish_unsupported_rotation() {
    assert_eq!(finish_screenshot(&plan(45, 2, 1), two_pixels()), Err(FfError::UnsupportedRotation(45)));
}

#[test]
fn finish_rotated_90_turns_counterclockwise_back() {
    // frame 2 wide, 1 high: [a b]; turned 270 clockwise it is 1 wide, 2 high: [b; a]
    let (out, w, h) = finish_screenshot(&plan(90, 2, 1), two_pixels()).unwrap();
    assert_eq!((w, h), (2, 1));
    let mut expected = pixel(4, 5, 6, 255);
    expected.extend(pixel(1, 2, 3, 255));
    assert_eq!(out, expected);
}

#[test]
fn finish_rotated_270_turns_clockwise() {
    // [a b] turned 90 clockwise is [a; b]
    let (out, _, _) = finish_screenshot(&plan(270, 2, 1), two_pixels()).unwrap();
    assert_eq!(out, two_pixels());
}

#[test]
fn finish_rotated_180_keeps_trailing_bytes() {
    let mut buf = two_pixels();
    buf.push(77);
    let (out, _, _) = finish_screenshot(&plan(180, 2, 1), buf).unwrap();
    let mut expected = pixel(4, 5, 6, 255);
    expected.extend(pixel(1, 2, 3, 255));
    expected.push(77);
    assert_eq!(out, expected);
}

#[test]
fn frame_from_raw_checks_length() {
    assert!(RgbaFrame::from_raw(2, 2, vec![0u8; 15]).is_none());
    let f = RgbaFrame::from_raw(2, 2, vec![1u8; 17]).unwrap();
    assert_eq!((f.width(), f.height()), (2, 2));
    assert_eq!(f.into_raw(), vec![1u8; 17]);
}

#[test]
fn frame_new_is_transparent_black() {
    let f = RgbaFrame::new(3, 2);
    assert_eq!(f.into_raw(), vec![0u8; 24]);
}

#[test]
fn rotating_90_then_270_gives_the_image_back() {
    let data: Vec<u8> = (0u8..24).collect();
    let f = RgbaFrame::from_raw(3, 2, data.clone()).unwrap();
    let turned = f.rotate90();
    assert_eq!((turned.width(), turned.height()), (2, 3));
    let back = turned.rotate270();
    assert_eq!((back.width(), back.height()), (3, 2));
    assert_eq!(back.into_raw(), data);
}

#[test]
fn rotating_180_twice_gives_the_image_back() {
    let data: Vec<u8> = (0u8..28).collect();
    let mut f = RgbaFrame::from_raw(3, 2, data.clone()).unwrap();
    f.rotate180_in_place();
    assert_ne!(f.width(), 0);
    f.rotate180_in_place();
    assert_eq!(f.into_raw(), data);
}

#[test]
fn overlay_opaque_and_transparent_pixels() {
    let mut canvas = RgbaFrame::from_raw(2, 1, pixel(10, 10, 10, 255).into_iter().chain(pixel(20, 20, 20, 255)).collect()).unwrap();
    let top = RgbaFrame::from_raw(2, 1, pixel(1, 2, 3, 255).into_iter().chain(pixel(9, 9, 9, 0)).collect()).unwrap();
    canvas.overlay(&top, 0, 0);
    let mut expected = pixel(1, 2, 3, 255);
    expected.extend(pixel(20, 20, 20, 255));
    assert_eq!(canvas.into_raw(), expected);
}

#[test]
fn overlay_outside_changes_nothing() {
    let data: Vec<u8> = pixel(10, 10, 10, 255);
    let mut canvas = RgbaFrame::from_raw(1, 1, data.clone()).unwrap();
    let top = RgbaFrame::from_raw(1, 1, pixel(1, 2, 3, 255)).unwrap();
    canvas.overlay(&top, 1, 0);
    assert_eq!(canvas.into_raw(), data);
}

#[test]
fn layout_is_row_major() {
    let layout = preview_layout(2, 3);
    assert_eq!(layout.len(), 6);
    assert_eq!(layout[0], FramePos { x: 0, y: 0, index: 0 });
    assert_eq!(layout[2], FramePos { x: 2, y: 0, index: 2 });
    assert_eq!(layout[3], FramePos { x: 0, y: 1, index: 3 });
    assert_eq!(layout[5], FramePos { x: 2, y: 1, index: 5 });
    assert!(preview_layout(0, 4).is_empty());
}

#[test]
fn collect_frames_gives_first_failure() {
    let results = vec![Ok(vec![0u8; 4]), Ok(vec![0u8; 3]), Err(FfError::Ffmpeg(-5))];
    assert_eq!(collect_frames(results, 1, 1).err(), Some(FfError::CannotCreateImage));
    let results = vec![Ok(vec![0u8; 4]), Err(FfError::Ffmpeg(-5)), Ok(vec![0u8; 3])];
    assert_eq!(collect_frames(results, 1, 1).err(), Some(FfError::Ffmpeg(-5)));
    let results = vec![Ok(vec![0u8; 4]), Ok(vec![7u8; 5])];
    let frames = collect_frames(results, 1, 1).unwrap();
    assert_eq!(frames.len(), 2);
}

#[test]
fn assemble_two_by_two_preview() {
    // four 1x1 frames, in grid order
    let results = vec![
        Ok(pixel(1, 1, 1, 255)),
        Ok(pixel(2, 2, 2, 255)),
        Ok(pixel(3, 3, 3, 255)),
        Ok(pixel(4, 4, 4, 255)),
    ];
    let canvas = assemble_preview(2, 2, 1, 1, results).unwrap();
    let mut expected = Vec::new();
    for v in 1u8..=4 {
        expected.extend(pixel(v, v, v, 255));
    }
    assert_eq!(canvas, expected);
}

#[test]
fn assemble_places_tiles() {
    // one row of two 2x1 frames: canvas 4x1
    let results = vec![Ok(two_pixels()), Ok(pixel(7, 7, 7, 255).into_iter().chain(pixel(8, 8, 8, 0)).collect())];
    let canvas = assemble_preview(1, 2, 2, 1, results).unwrap();
    let mut expected = two_pixels();
    expected.extend(pixel(7, 7, 7, 255));
    expected.extend(pixel(0, 0, 0, 0));
    assert_eq!(canvas, expected);
}

#[test]
fn assemble_fails_with_first_error() {
    let results = vec![Ok(pixel(1, 1, 1, 255)), Err(FfError::NoVideoStream)];
    assert_eq!(assemble_preview(1, 2, 1, 1, results), Err(FfError::NoVideoStream));
}

#[test]
fn compose_from_frames() {
    let frames = vec![
        RgbaFrame::from_raw(1, 2, [pixel(1, 1, 1, 255), pixel(2, 2, 2, 255)].concat()).unwrap(),
        RgbaFrame::from_raw(1, 2, [pixel(3, 3, 3, 255), pixel(4, 4, 4, 255)].concat()).unwrap(),
    ];
    let canvas = compose_preview(1, 2, 1, 2, &frames);
    let expected = [pixel(1, 1, 1, 255), pixel(3, 3, 3, 255), pixel(2, 2, 2, 255), pixel(4, 4, 4, 255)].concat();
    assert_eq!(canvas, expected);
}

#[test]
fn seek_window_runs_forward() {
    for (num, den) in [(1, 90000), (1, 1000), (1001, 30000), (1, 25)] {
        let mut s = stream(None, Ok((16, 9)));
        s.time_base = Rational { num, den };
        let p = probe(0, Some(s));
        for ts in [0i64, 1, 499, 500, 1500, 3_600_000] {
            let plan = plan_screenshot(&p, ts, None, None).unwrap();
            assert_eq!(plan.seek_min_ts, 0);
            assert!(plan.seek_min_ts <= plan.seek_ts);
            assert!(plan.seek_ts <= plan.seek_max_ts);
        }
    }
}

#[test]
fn rescale_is_monotone_on_samples() {
    let tb = Rational { num: 1001, den: 30000 };
    let mut last = i64::MIN + 1;
    for a in -3000i64..3000 {
        let r = rescale_q(a, millisecond(), tb);
        assert!(last <= r);
        last = r;
    }
}

#[test]
fn screenshot_is_upright_at_requested_size() {
    for rotation in [0, 90, 180, 270] {
        let p = probe(0, Some(stream(Some(rotation), Ok((1920, 1080)))));
        let plan = plan_screenshot(&p, 0, Some(320), Some(200)).unwrap();
        let turned = plan.rotation == 90 || plan.rotation == 270;
        let upright = if turned { (plan.height, plan.width) } else { (plan.width, plan.height) };
        assert_eq!(upright, (320, 200));
    }
}

#[test]
fn default_frame_size_is_decoder_size() {
    for rotation in [-90, 0, 90, 180, 270] {
        let info = get_info(&probe(0, Some(stream(Some(rotation), Ok((1280, 720)))))).unwrap();
        assert_eq!(frame_size(&info, None, None), (1280, 720));
    }
}

#[test]
fn every_cell_holds_one_frame() {
    let (rows, cols) = (3u32, 4u32);
    let layout = preview_layout(rows, cols);
    for y in 0..rows {
        for x in 0..cols {
            let hits: Vec<&FramePos> = layout.iter().filter(|p| p.x == x && p.y == y).collect();
            assert_eq!(hits.len(), 1);
            assert_eq!(hits[0].index, y * cols + x);
        }
    }
}

#[test]
fn opaque_preview_shows_each_frame_in_its_tile() {
    // a 2 by 3 grid of 2x2 frames; frame i has every byte = 10 * i + 1, alpha 255
    let (rows, cols, fw, fh) = (2u32, 3u32, 2u32, 2u32);
    let results: Vec<Result<Vec<u8>, FfError>> = (0..rows * cols)
        .map(|i| {
            let v = (10 * i + 1) as u8;
            Ok((0..fw * fh).flat_map(|_| pixel(v, v, v, 255)).collect())
        })
        .collect();
    let canvas = assemble_preview(rows, cols, fw, fh, results).unwrap();
    let width = fw * cols;
    for py in 0..fh * rows {
        for px in 0..width {
            let i = (py / fh) * cols + px / fw;
            let at = (4 * (py * width + px)) as usize;
            assert_eq!(&canvas[at..at + 4], &pixel((10 * i + 1) as u8, (10 * i + 1) as u8, (10 * i + 1) as u8, 255)[..]);
        }
    }
}

#[test]
fn no_video_error_for_any_timestamp() {
    assert_eq!(plan_screenshot(&probe(0, None), i64::MAX, None, None), Err(FfError::NoVideoStream));
    let p = probe(0, Some(stream(None, Err(-22))));
    assert_eq!(plan_screenshot(&p, i64::MAX, None, None), Err(FfError::Ffmpeg(-22)));
}

#[test]
fn plane_rows_are_packed() {
    // a 2 by 2 image in a plane whose rows are 12 bytes apart (4 bytes of padding)
    let mut plane = Vec::new();
    plane.extend(two_pixels());
    plane.extend([0xEEu8; 4]);
    plane.extend(pixel(7, 7, 7, 255));
    plane.extend(pixel(8, 8, 8, 255));
    plane.extend([0xEEu8; 4]);
    let packed = pack_plane(&plane, 12, 2, 2);
    let mut expected = two_pixels();
    expected.extend(pixel(7, 7, 7, 255));
    expected.extend(pixel(8, 8, 8, 255));
    assert_eq!(packed, expected);
    assert_eq!(pack_plane(&plane, 12, 2, 0), Vec::<u8>::new());
}

#[test]
fn screenshot_from_padded_plane() {
    let mut plane = two_pixels();
    plane.extend([0xEEu8; 8]);
    let (out, w, h) = screenshot_from_plane(&plan(0, 2, 1), &plane, 16).unwrap();
    assert_eq!((out, w, h), (two_pixels(), 2, 1));
    let (out, _, _) = screenshot_from_plane(&plan(180, 2, 1), &plane, 16).unwrap();
    let mut expected = pixel(4, 5, 6, 255);
    expected.extend(pixel(1, 2, 3, 255));
    assert_eq!(out, expected);
    assert_eq!(
        screenshot_from_plane(&plan(45, 2, 1), &plane, 16),
        Err(FfError::UnsupportedRotation(45))
    );
}
