use cap_core::decimal::{decimal_string, push_fixed};
use cap_core::editor_instance::{
    default_timeline_segments, duration_from_metadata, get_total_frames, plan_preview,
    resolve_duration, EditorActivity, PreviewPlan, StreamDuration,
};
use cap_core::fixed::{clamp, lerp, max, min, minus, plus, ratio, scale, times, ONE};
use cap_core::project::{
    AudioConfiguration, ClipConfiguration, ClipOffsets, ProjectConfiguration, StereoMode,
    TimelineConfiguration, TimelineSegment,
};
use cap_core::videotoolbox::{
    conversion_formats, copy_plane, extract_plane, pixel_to_cv_format, plane_fits,
    ConversionFormats, Pixel,
};

fn fx_editor(value: f64) -> i64 {
    (value * 1e9).round() as i64
}

fn quiet() -> EditorActivity {
    EditorActivity { playback_active: false, export_preview_active: false, export_active: false }
}

fn short_project() -> ProjectConfiguration {
    ProjectConfiguration {
        timeline: Some(TimelineConfiguration {
            segments: vec![
                TimelineSegment {
                    recording_clip: 3,
                    start: 0,
                    end: fx_editor(0.2),
                    timescale: fx_editor(1.0),
                },
                TimelineSegment {
                    recording_clip: 4,
                    start: fx_editor(0.2),
                    end: fx_editor(0.4),
                    timescale: fx_editor(1.0),
                },
            ],
            scene_segments: vec![],
            text_segments: vec![],
        }),
        clips: vec![ClipConfiguration {
            index: 4,
            offsets: ClipOffsets { camera: 1, mic: 2, system_audio: 3 },
        }],
        audio: AudioConfiguration {
            mute: false,
            mic_volume_db: 0,
            mic_stereo_mode: StereoMode::Stereo,
            system_volume_db: 0,
        },
    }
}

#[test]
fn fixed_point_operations_round_toward_zero_and_saturate() {
    assert_eq!(times(fx_editor(1.5), fx_editor(-0.5)), fx_editor(-0.75));
    assert_eq!(times(1, 1), 0);
    assert_eq!(times(-1, ONE - 1), 0);
    assert_eq!(scale(7, 1, 2), 3);
    assert_eq!(scale(-7, 1, 2), -3);
    assert_eq!(ratio(fx_editor(1.0), fx_editor(3.0)), 333_333_333);
    assert_eq!(ratio(fx_editor(-1.0), fx_editor(3.0)), -333_333_333);
    assert_eq!(plus(i64::MAX, 1), i64::MAX);
    assert_eq!(minus(i64::MIN, 1), i64::MIN);
    assert_eq!(minus(5, 7), -2);
    assert_eq!(times(i64::MAX, i64::MAX), i64::MAX);
    assert_eq!(times(i64::MIN, i64::MAX), i64::MIN);
    assert_eq!(lerp(fx_editor(1.0), fx_editor(1.1), fx_editor(0.5)), fx_editor(1.05));
    assert_eq!(lerp(fx_editor(2.0), fx_editor(-2.0), fx_editor(0.25)), fx_editor(1.0));
    assert_eq!(clamp(5, 0, 3), 3);
    assert_eq!(clamp(-5, 0, 3), 0);
    assert_eq!((min(2, 3), max(2, 3)), (2, 3));
}

#[test]
fn decimals_are_written_without_padding() {
    assert_eq!(decimal_string(0), "0");
    assert_eq!(decimal_string(907), "907");
    assert_eq!(decimal_string(u64::MAX), "18446744073709551615");
    let cases = [
        (0, "0"),
        (fx_editor(1.5), "1.5"),
        (fx_editor(-0.2), "-0.2"),
        (fx_editor(2.0), "2"),
        (1, "0.000000001"),
        (-1_000_000_010, "-1.00000001"),
        (i64::MIN, "-9223372036.854775808"),
    ];
    for (value, text) in cases {
        let mut out = String::from("=");
        push_fixed(&mut out, value);
        assert_eq!(out, format!("={text}"));
    }
}

#[test]
fn every_begun_frame_counts() {
    assert_eq!(get_total_frames(30, fx_editor(10.0)), 300);
    assert_eq!(get_total_frames(30, fx_editor(10.01)), 301);
    assert_eq!(get_total_frames(30, 1), 1);
    assert_eq!(get_total_frames(30, 0), 0);
    assert_eq!(get_total_frames(30, fx_editor(-2.0)), 0);
    assert_eq!(get_total_frames(0, fx_editor(2.0)), 0);
    assert_eq!(get_total_frames(u32::MAX, i64::MAX), u32::MAX);
}

#[test]
fn duration_comes_from_container_then_stream() {
    let stream = StreamDuration { duration: 90_000, numerator: 1, denominator: 30_000 };
    assert_eq!(duration_from_metadata(2_500_000, Some(stream)), Some(fx_editor(2.5)));
    assert_eq!(duration_from_metadata(0, Some(stream)), Some(fx_editor(3.0)));
    assert_eq!(duration_from_metadata(-4, None), None);
    let unset = StreamDuration { duration: 0, numerator: 1, denominator: 30_000 };
    assert_eq!(duration_from_metadata(0, Some(unset)), None);
    let broken = StreamDuration { duration: 5, numerator: 1, denominator: 0 };
    assert_eq!(duration_from_metadata(0, Some(broken)), None);
    assert_eq!(resolve_duration(Some(7), Some(8)), 7);
    assert_eq!(resolve_duration(None, Some(8)), 8);
    assert_eq!(resolve_duration(None, None), fx_editor(5.0));
}

#[test]
fn fresh_timeline_plays_each_recording_once() {
    let segments =
        default_timeline_segments(&[fx_editor(2.0), 0, fx_editor(-1.0), fx_editor(3.5)]);
    assert_eq!(
        segments,
        vec![
            TimelineSegment {
                recording_clip: 0,
                start: 0,
                end: fx_editor(2.0),
                timescale: fx_editor(1.0)
            },
            TimelineSegment {
                recording_clip: 3,
                start: fx_editor(2.0),
                end: fx_editor(5.5),
                timescale: fx_editor(1.0)
            },
        ]
    );
    assert!(default_timeline_segments(&[]).is_empty());
}

#[test]
fn preview_yields_to_playback_and_export() {
    let project = short_project();
    let playing = EditorActivity { playback_active: true, ..quiet() };
    assert!(matches!(plan_preview(&project, 0, 30, playing), PreviewPlan::Idle));
    let exporting = EditorActivity { export_active: true, ..quiet() };
    assert!(matches!(
        plan_preview(&project, 0, 30, exporting),
        PreviewPlan::Throttle { millis: 100 }
    ));
    assert!(matches!(plan_preview(&project, 12, 30, quiet()), PreviewPlan::NoSegment));
    assert!(matches!(plan_preview(&project, 0, 0, quiet()), PreviewPlan::NoSegment));
}

#[test]
fn preview_decodes_the_frame_and_fetches_ahead() {
    let project = short_project();
    match plan_preview(&project, 5, 30, quiet()) {
        PreviewPlan::Render { frame, prefetch } => {
            assert_eq!((frame.frame_number, frame.clip_index), (5, 3));
            assert_eq!(frame.segment_time, 166_666_666);
            assert_eq!(frame.offsets, ClipOffsets::default());
            let numbers: Vec<u32> = prefetch.iter().map(|r| r.frame_number).collect();
            assert_eq!(numbers, vec![6, 7, 8, 9, 10, 11]);
            assert_eq!(prefetch[0].clip_index, 4);
            assert_eq!(prefetch[0].segment_time, 0);
            assert_eq!(prefetch[0].offsets.mic, 2);
        }
        other => panic!("{other:?}"),
    }
    let previewing = EditorActivity { export_preview_active: true, ..quiet() };
    match plan_preview(&project, 5, 30, previewing) {
        PreviewPlan::Render { prefetch, .. } => assert!(prefetch.is_empty()),
        other => panic!("{other:?}"),
    }
}

#[test]
fn converter_takes_five_pixel_formats() {
    assert_eq!(pixel_to_cv_format(Pixel::YUYV422), Some(0x79757679));
    assert_eq!(pixel_to_cv_format(Pixel::UYVY422), Some(0x32767579));
    assert_eq!(pixel_to_cv_format(Pixel::NV12), Some(0x34323076));
    assert_eq!(pixel_to_cv_format(Pixel::BGRA), Some(0x42475241));
    assert_eq!(pixel_to_cv_format(Pixel::ARGB), Some(0x00000020));
    assert_eq!(pixel_to_cv_format(Pixel::RGBA), None);
    assert_eq!(pixel_to_cv_format(Pixel::Other), None);
    assert_eq!(
        conversion_formats(Pixel::BGRA, Pixel::NV12),
        Some(ConversionFormats { input_cv_format: 0x42475241, output_cv_format: 0x34323076 })
    );
    assert_eq!(conversion_formats(Pixel::RGBA, Pixel::NV12), None);
    assert_eq!(conversion_formats(Pixel::BGRA, Pixel::Other), None);
}

#[test]
fn planes_are_read_and_copied_row_by_row() {
    let src: Vec<u8> = (0..20).collect();
    assert_eq!(extract_plane(&src, 8, 3, 2), vec![0, 1, 2, 8, 9, 10]);
    assert_eq!(extract_plane(&src, 8, 3, 0), Vec::<u8>::new());
    assert_eq!(extract_plane(&src, 4, 6, 3), vec![0, 1, 2, 3, 4, 5, 4, 5, 6, 7, 8, 9, 8, 9, 10, 11, 12, 13]);

    let mut dst = vec![99u8; 12];
    copy_plane(&src, 8, &mut dst, 4, 3);
    assert_eq!(dst, vec![0, 1, 2, 3, 8, 9, 10, 11, 16, 17, 18, 19]);

    let mut dst = vec![99u8; 14];
    copy_plane(&src, 3, &mut dst, 5, 3);
    assert_eq!(dst, vec![0, 1, 2, 99, 99, 3, 4, 5, 99, 99, 6, 7, 8, 99]);

    let mut dst = vec![99u8; 9];
    copy_plane(&src, 4, &mut dst, 4, 2);
    assert_eq!(dst, vec![0, 1, 2, 3, 4, 5, 6, 7, 99]);

    assert!(plane_fits(20, 8, 3, 2));
    assert!(plane_fits(20, 8, 4, 3));
    assert!(!plane_fits(20, 8, 5, 3));
    assert!(plane_fits(0, 8, 5, 0));
    assert!(!plane_fits(usize::MAX, usize::MAX, 1, 3));
}
