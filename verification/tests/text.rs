use cap_core::project::{TextKeyframes, TextScalarKeyframe, TextSegment, TextVectorKeyframe, XY};
use cap_core::text::{
    interpolate_text_scalar, interpolate_text_vector, parse_color, parse_hex_color, prepare_texts,
    sort_order,
};

fn fx_text(value: f64) -> i64 {
    (value * 1e9).round() as i64
}

fn fl_text(value: i64) -> f64 {
    value as f64 / 1e9
}

fn scalar_key(time: f64, value: f64) -> TextScalarKeyframe {
    TextScalarKeyframe { time: fx_text(time), value: fx_text(value) }
}

fn vector_key(time: f64, x: f64, y: f64) -> TextVectorKeyframe {
    TextVectorKeyframe { time: fx_text(time), x: fx_text(x), y: fx_text(y) }
}

fn point(x: f64, y: f64) -> XY<i64> {
    XY::new(fx_text(x), fx_text(y))
}

fn text_segment(start: f64, end: f64) -> TextSegment {
    TextSegment {
        start: fx_text(start),
        end: fx_text(end),
        enabled: true,
        content: "Test".to_string(),
        center: point(0.5, 0.5),
        size: point(0.35, 0.2),
        font_family: "sans-serif".to_string(),
        font_size: fx_text(48.0),
        font_weight: fx_text(700.0),
        italic: false,
        color: "#ffffff".to_string(),
        fade_duration: fx_text(0.0),
        keyframes: TextKeyframes::default(),
    }
}

fn full_hd() -> XY<u32> {
    XY::new(1920, 1080)
}

#[test]
fn test_interpolate_text_scalar_empty() {
    let result = interpolate_text_scalar(fx_text(0.5), &[], fx_text(1.0));
    assert_eq!(result, fx_text(0.5));
}

#[test]
fn test_interpolate_text_scalar_single() {
    let keys = vec![scalar_key(0.0, 0.8)];
    let result = interpolate_text_scalar(fx_text(0.5), &keys, fx_text(1.0));
    assert_eq!(result, fx_text(0.8));
}

#[test]
fn test_interpolate_text_scalar_interpolation() {
    let keys = vec![scalar_key(0.0, 0.0), scalar_key(1.0, 1.0)];
    let result = interpolate_text_scalar(fx_text(0.5), &keys, fx_text(0.5));
    assert!((fl_text(result) - 0.5).abs() < 1e-6);

    let result_before = interpolate_text_scalar(fx_text(0.5), &keys, fx_text(-1.0));
    assert_eq!(result_before, fx_text(0.0));

    let result_after = interpolate_text_scalar(fx_text(0.5), &keys, fx_text(2.0));
    assert_eq!(result_after, fx_text(1.0));
}

#[test]
fn test_interpolate_text_vector_empty() {
    let base = point(0.5, 0.5);
    let result = interpolate_text_vector(base, &[], fx_text(1.0));
    assert_eq!(result.x, fx_text(0.5));
    assert_eq!(result.y, fx_text(0.5));
}

#[test]
fn test_interpolate_text_vector_interpolation() {
    let keys = vec![vector_key(0.0, 0.0, 0.0), vector_key(1.0, 1.0, 1.0)];
    let base = point(0.5, 0.5);
    let result = interpolate_text_vector(base, &keys, fx_text(0.5));
    assert!((fl_text(result.x) - 0.5).abs() < 1e-6);
    assert!((fl_text(result.y) - 0.5).abs() < 1e-6);

    let result_before = interpolate_text_vector(base, &keys, fx_text(-1.0));
    assert_eq!(result_before.x, fx_text(0.0));
    assert_eq!(result_before.y, fx_text(0.0));

    let result_after = interpolate_text_vector(base, &keys, fx_text(2.0));
    assert_eq!(result_after.x, fx_text(1.0));
    assert_eq!(result_after.y, fx_text(1.0));
}

#[test]
fn test_interpolate_text_vector_single() {
    let keys = vec![vector_key(0.5, 0.3, 0.7)];
    let base = point(0.0, 0.0);
    let result = interpolate_text_vector(base, &keys, fx_text(1.0));
    assert_eq!(result.x, fx_text(0.3));
    assert_eq!(result.y, fx_text(0.7));
}

#[test]
fn test_interpolate_text_scalar_out_of_order() {
    let keys = vec![scalar_key(1.0, 1.0), scalar_key(0.0, 0.0)];
    let result = interpolate_text_scalar(fx_text(0.5), &keys, fx_text(0.5));
    assert!((fl_text(result) - 0.5).abs() < 1e-6);
}

#[test]
fn test_interpolate_text_vector_out_of_order() {
    let keys = vec![vector_key(1.0, 1.0, 1.0), vector_key(0.0, 0.0, 0.0)];
    let base = point(0.5, 0.5);
    let result = interpolate_text_vector(base, &keys, fx_text(0.5));
    assert!((fl_text(result.x) - 0.5).abs() < 1e-6);
    assert!((fl_text(result.y) - 0.5).abs() < 1e-6);
}

#[test]
fn test_interpolate_text_scalar_multiple_segments() {
    let keys = vec![scalar_key(0.0, 0.0), scalar_key(1.0, 1.0), scalar_key(2.0, 0.5)];

    let at_zero = interpolate_text_scalar(fx_text(0.0), &keys, fx_text(0.0));
    assert_eq!(at_zero, fx_text(0.0));

    let at_half = interpolate_text_scalar(fx_text(0.0), &keys, fx_text(0.5));
    assert!((fl_text(at_half) - 0.5).abs() < 1e-6);

    let at_one = interpolate_text_scalar(fx_text(0.0), &keys, fx_text(1.0));
    assert_eq!(at_one, fx_text(1.0));

    let at_1_5 = interpolate_text_scalar(fx_text(0.0), &keys, fx_text(1.5));
    assert!((fl_text(at_1_5) - 0.75).abs() < 1e-6);

    let at_two = interpolate_text_scalar(fx_text(0.0), &keys, fx_text(2.0));
    assert_eq!(at_two, fx_text(0.5));
}

#[test]
fn test_interpolate_text_scalar_clamping() {
    let keys = vec![scalar_key(0.0, 0.0), scalar_key(1.0, 2.0)];

    let at_half = interpolate_text_scalar(fx_text(0.0), &keys, fx_text(0.5));
    assert_eq!(at_half, fx_text(1.0));

    let at_one = interpolate_text_scalar(fx_text(0.0), &keys, fx_text(1.0));
    assert_eq!(at_one, fx_text(1.0));
}

#[test]
fn test_interpolate_text_scalar_very_close_keyframes() {
    let keys = vec![scalar_key(1.0, 0.0), scalar_key(1.0000001, 1.0)];
    let result = interpolate_text_scalar(fx_text(0.5), &keys, fx_text(1.00000005));
    assert!(result >= fx_text(0.0) && result <= fx_text(1.0));
}

#[test]
fn test_parse_color_valid_hex() {
    let color = parse_color("#ff0000");
    assert!((fl_text(color[0]) - 1.0).abs() < 1e-6);
    assert!((fl_text(color[1]) - 0.0).abs() < 1e-6);
    assert!((fl_text(color[2]) - 0.0).abs() < 1e-6);
    assert_eq!(color[3], fx_text(1.0));
}

#[test]
fn test_parse_color_no_hash() {
    let color = parse_color("00ff00");
    assert!((fl_text(color[0]) - 0.0).abs() < 1e-6);
    assert!((fl_text(color[1]) - 1.0).abs() < 1e-6);
    assert!((fl_text(color[2]) - 0.0).abs() < 1e-6);
}

#[test]
fn test_parse_color_invalid_returns_white() {
    let color = parse_color("invalid");
    assert_eq!(color, [fx_text(1.0), fx_text(1.0), fx_text(1.0), fx_text(1.0)]);

    let color_short = parse_color("#fff");
    assert_eq!(color_short, [fx_text(1.0), fx_text(1.0), fx_text(1.0), fx_text(1.0)]);
}

#[test]
fn test_prepare_texts_empty_segments() {
    let result = prepare_texts(full_hd(), fx_text(0.0), &[], &[]);
    assert!(result.is_empty());
}

#[test]
fn test_prepare_texts_disabled_segment() {
    let mut segment = text_segment(0.0, 10.0);
    segment.enabled = false;
    let result = prepare_texts(full_hd(), fx_text(5.0), &[segment], &[]);
    assert!(result.is_empty());
}

#[test]
fn test_prepare_texts_outside_time_range() {
    let segment = text_segment(5.0, 10.0);

    let before = prepare_texts(full_hd(), fx_text(2.0), &[segment.clone()], &[]);
    assert!(before.is_empty());

    let after = prepare_texts(full_hd(), fx_text(15.0), &[segment], &[]);
    assert!(after.is_empty());
}

#[test]
fn test_prepare_texts_hidden_index() {
    let segment = text_segment(0.0, 10.0);
    let result = prepare_texts(full_hd(), fx_text(5.0), &[segment], &[0]);
    assert!(result.is_empty());
}

#[test]
fn test_prepare_texts_basic_rendering() {
    let mut segment = text_segment(0.0, 10.0);
    segment.content = "Hello World".to_string();
    segment.font_family = "Arial".to_string();
    segment.font_weight = fx_text(400.0);
    segment.italic = true;
    segment.color = "#ff0000".to_string();
    let result = prepare_texts(full_hd(), fx_text(5.0), &[segment], &[]);

    assert_eq!(result.len(), 1);
    let text = &result[0];
    assert_eq!(text.content, "Hello World");
    assert_eq!(text.font_family, "Arial");
    assert_eq!(text.font_weight, fx_text(400.0));
    assert!(text.italic);
    assert!((fl_text(text.color[0]) - 1.0).abs() < 1e-6);
    assert!((fl_text(text.opacity) - 1.0).abs() < 1e-6);
}

#[test]
fn test_prepare_texts_fade_in_out() {
    let mut segment = text_segment(0.0, 10.0);
    segment.fade_duration = fx_text(1.0);

    let at_start = prepare_texts(full_hd(), fx_text(0.0), &[segment.clone()], &[]);
    assert_eq!(at_start.len(), 1);
    assert!((fl_text(at_start[0].opacity) - 0.0).abs() < 1e-6);

    let halfway_fade_in = prepare_texts(full_hd(), fx_text(0.5), &[segment.clone()], &[]);
    assert_eq!(halfway_fade_in.len(), 1);
    assert!((fl_text(halfway_fade_in[0].opacity) - 0.5).abs() < 1e-6);

    let middle = prepare_texts(full_hd(), fx_text(5.0), &[segment.clone()], &[]);
    assert_eq!(middle.len(), 1);
    assert!((fl_text(middle[0].opacity) - 1.0).abs() < 1e-6);

    let halfway_fade_out = prepare_texts(full_hd(), fx_text(9.5), &[segment.clone()], &[]);
    assert_eq!(halfway_fade_out.len(), 1);
    assert!((fl_text(halfway_fade_out[0].opacity) - 0.5).abs() < 1e-6);

    let at_end = prepare_texts(full_hd(), fx_text(10.0), &[segment], &[]);
    assert_eq!(at_end.len(), 1);
    assert!((fl_text(at_end[0].opacity) - 0.0).abs() < 1e-6);
}

#[test]
fn test_prepare_texts_keyframe_opacity() {
    let mut segment = text_segment(0.0, 10.0);
    segment.keyframes = TextKeyframes {
        position: vec![],
        opacity: vec![
            scalar_key(0.0, 0.0),
            scalar_key(2.0, 1.0),
            scalar_key(8.0, 1.0),
            scalar_key(10.0, 0.0),
        ],
    };

    let at_start = prepare_texts(full_hd(), fx_text(0.0), &[segment.clone()], &[]);
    assert_eq!(at_start.len(), 1);
    assert!((fl_text(at_start[0].opacity) - 0.0).abs() < 1e-6);

    let at_one = prepare_texts(full_hd(), fx_text(1.0), &[segment.clone()], &[]);
    assert_eq!(at_one.len(), 1);
    assert!((fl_text(at_one[0].opacity) - 0.5).abs() < 1e-6);

    let at_five = prepare_texts(full_hd(), fx_text(5.0), &[segment.clone()], &[]);
    assert_eq!(at_five.len(), 1);
    assert!((fl_text(at_five[0].opacity) - 1.0).abs() < 1e-6);

    let at_nine = prepare_texts(full_hd(), fx_text(9.0), &[segment], &[]);
    assert_eq!(at_nine.len(), 1);
    assert!((fl_text(at_nine[0].opacity) - 0.5).abs() < 1e-6);
}

#[test]
fn test_prepare_texts_keyframe_position() {
    let mut segment = text_segment(0.0, 10.0);
    segment.size = point(0.2, 0.1);
    segment.keyframes = TextKeyframes {
        position: vec![vector_key(0.0, 0.0, 0.5), vector_key(10.0, 1.0, 0.5)],
        opacity: vec![],
    };

    let at_start = prepare_texts(full_hd(), fx_text(0.0), &[segment.clone()], &[]);
    assert_eq!(at_start.len(), 1);
    assert!(fl_text(at_start[0].bounds[0]) < 10.0);

    let at_middle = prepare_texts(full_hd(), fx_text(5.0), &[segment.clone()], &[]);
    assert_eq!(at_middle.len(), 1);
    let mid_left = fl_text(at_middle[0].bounds[0]);
    assert!(mid_left > 700.0 && mid_left < 900.0);

    let at_end = prepare_texts(full_hd(), fx_text(10.0), &[segment], &[]);
    assert_eq!(at_end.len(), 1);
    assert!(fl_text(at_end[0].bounds[0]) > 1500.0);
}

#[test]
fn test_prepare_texts_keyframe_opacity_with_fade() {
    let mut segment = text_segment(0.0, 10.0);
    segment.fade_duration = fx_text(1.0);
    segment.keyframes = TextKeyframes { position: vec![], opacity: vec![scalar_key(0.0, 0.5)] };

    let at_half_fade = prepare_texts(full_hd(), fx_text(0.5), &[segment], &[]);
    assert_eq!(at_half_fade.len(), 1);
    assert!((fl_text(at_half_fade[0].opacity) - 0.25).abs() < 1e-6);
}

#[test]
fn test_prepare_texts_zero_output_size() {
    let segment = text_segment(0.0, 10.0);
    let result = prepare_texts(XY::new(0, 0), fx_text(5.0), &[segment], &[]);
    assert_eq!(result.len(), 1);
}

#[test]
fn test_prepare_texts_multiple_segments() {
    let mut first = text_segment(0.0, 5.0);
    first.content = "First".to_string();
    first.center = point(0.5, 0.3);
    let mut second = text_segment(3.0, 8.0);
    second.content = "Second".to_string();
    let mut third = text_segment(6.0, 10.0);
    third.content = "Third".to_string();
    third.center = point(0.5, 0.7);
    let segments = vec![first, second, third];

    let at_one = prepare_texts(full_hd(), fx_text(1.0), &segments, &[]);
    assert_eq!(at_one.len(), 1);
    assert_eq!(at_one[0].content, "First");

    let at_four = prepare_texts(full_hd(), fx_text(4.0), &segments, &[]);
    assert_eq!(at_four.len(), 2);

    let at_seven = prepare_texts(full_hd(), fx_text(7.0), &segments, &[]);
    assert_eq!(at_seven.len(), 2);

    let at_nine = prepare_texts(full_hd(), fx_text(9.0), &segments, &[]);
    assert_eq!(at_nine.len(), 1);
    assert_eq!(at_nine[0].content, "Third");
}

#[test]
fn test_prepare_texts_font_size_scaling() {
    let segment = text_segment(0.0, 10.0);

    let at_1080p = prepare_texts(XY::new(1920, 1080), fx_text(5.0), &[segment.clone()], &[]);
    let at_720p = prepare_texts(XY::new(1280, 720), fx_text(5.0), &[segment.clone()], &[]);
    let at_4k = prepare_texts(XY::new(3840, 2160), fx_text(5.0), &[segment], &[]);

    assert!(at_720p[0].font_size < at_1080p[0].font_size);
    assert!(at_1080p[0].font_size < at_4k[0].font_size);
}

#[test]
fn test_text_visible_at_exact_start_time() {
    let segment = text_segment(5.0, 10.0);
    let result = prepare_texts(full_hd(), fx_text(5.0), &[segment], &[]);
    assert_eq!(result.len(), 1);
}

#[test]
fn test_text_visible_at_exact_end_time() {
    let segment = text_segment(5.0, 10.0);
    let result = prepare_texts(full_hd(), fx_text(10.0), &[segment], &[]);
    assert_eq!(result.len(), 1);
}

#[test]
fn test_identical_keyframe_times() {
    let keys = vec![scalar_key(1.0, 0.3), scalar_key(1.0, 0.8)];
    let result = interpolate_text_scalar(fx_text(0.5), &keys, fx_text(1.0));
    assert!(result >= fx_text(0.0) && result <= fx_text(1.0));
}

#[test]
fn test_overlapping_fade_regions() {
    let mut segment = text_segment(0.0, 2.0);
    segment.fade_duration = fx_text(1.5);
    let result = prepare_texts(full_hd(), fx_text(1.0), &[segment], &[]);
    assert_eq!(result.len(), 1);
    assert!(result[0].opacity >= fx_text(0.0) && result[0].opacity <= fx_text(1.0));
}

#[test]
fn test_position_horizontal_only() {
    let keys = vec![vector_key(0.0, 0.0, 0.5), vector_key(10.0, 1.0, 0.5)];
    let base = point(0.5, 0.5);
    let result = interpolate_text_vector(base, &keys, fx_text(5.0));
    assert!((fl_text(result.x) - 0.5).abs() < 1e-6);
    assert_eq!(result.y, fx_text(0.5));
}

#[test]
fn test_interpolate_scalar_decreasing() {
    let keys = vec![scalar_key(0.0, 1.0), scalar_key(1.0, 0.0)];
    let result = interpolate_text_scalar(fx_text(0.5), &keys, fx_text(0.5));
    assert!((fl_text(result) - 0.5).abs() < 1e-6);
}

#[test]
fn test_interpolate_scalar_quarter_points() {
    let keys = vec![scalar_key(0.0, 0.0), scalar_key(1.0, 1.0)];
    let at_quarter = interpolate_text_scalar(fx_text(0.0), &keys, fx_text(0.25));
    assert!((fl_text(at_quarter) - 0.25).abs() < 1e-6);

    let at_three_quarters = interpolate_text_scalar(fx_text(0.0), &keys, fx_text(0.75));
    assert!((fl_text(at_three_quarters) - 0.75).abs() < 1e-6);
}

#[test]
fn test_position_vertical_only() {
    let keys = vec![vector_key(0.0, 0.5, 0.0), vector_key(10.0, 0.5, 1.0)];
    let base = point(0.5, 0.5);
    let result = interpolate_text_vector(base, &keys, fx_text(5.0));
    assert_eq!(result.x, fx_text(0.5));
    assert!((fl_text(result.y) - 0.5).abs() < 1e-6);
}

#[test]
fn test_zigzag_position_path() {
    let keys =
        vec![vector_key(0.0, 0.0, 0.0), vector_key(1.0, 1.0, 1.0), vector_key(2.0, 0.0, 1.0)];
    let base = point(0.5, 0.5);

    let at_half = interpolate_text_vector(base, &keys, fx_text(0.5));
    assert!((fl_text(at_half.x) - 0.5).abs() < 1e-6);
    assert!((fl_text(at_half.y) - 0.5).abs() < 1e-6);

    let at_1_5 = interpolate_text_vector(base, &keys, fx_text(1.5));
    assert!((fl_text(at_1_5.x) - 0.5).abs() < 1e-6);
    assert_eq!(at_1_5.y, fx_text(1.0));
}

#[test]
fn test_non_uniform_keyframe_spacing() {
    let keys = vec![
        scalar_key(0.0, 0.0),
        scalar_key(0.1, 0.5),
        scalar_key(0.9, 0.5),
        scalar_key(1.0, 1.0),
    ];

    let at_0_05 = interpolate_text_scalar(fx_text(0.0), &keys, fx_text(0.05));
    assert!((fl_text(at_0_05) - 0.25).abs() < 1e-6);

    let at_0_5 = interpolate_text_scalar(fx_text(0.0), &keys, fx_text(0.5));
    assert_eq!(at_0_5, fx_text(0.5));

    let at_0_95 = interpolate_text_scalar(fx_text(0.0), &keys, fx_text(0.95));
    assert!((fl_text(at_0_95) - 0.75).abs() < 1e-6);
}

#[test]
fn test_parse_color_black() {
    let color = parse_color("#000000");
    assert!((fl_text(color[0]) - 0.0).abs() < 1e-6);
    assert!((fl_text(color[1]) - 0.0).abs() < 1e-6);
    assert!((fl_text(color[2]) - 0.0).abs() < 1e-6);
    assert_eq!(color[3], fx_text(1.0));
}

#[test]
fn test_parse_color_white_uppercase() {
    let color = parse_color("#FFFFFF");
    assert!((fl_text(color[0]) - 1.0).abs() < 1e-6);
    assert!((fl_text(color[1]) - 1.0).abs() < 1e-6);
    assert!((fl_text(color[2]) - 1.0).abs() < 1e-6);
    assert_eq!(color[3], fx_text(1.0));
}

#[test]
fn test_parse_color_empty_string() {
    let color = parse_color("");
    assert_eq!(color, [fx_text(1.0), fx_text(1.0), fx_text(1.0), fx_text(1.0)]);
}

#[test]
fn test_multiple_hidden_indices() {
    let mut first = text_segment(0.0, 10.0);
    first.content = "First".to_string();
    first.center = point(0.5, 0.3);
    let mut second = text_segment(0.0, 10.0);
    second.content = "Second".to_string();
    let mut third = text_segment(0.0, 10.0);
    third.content = "Third".to_string();
    third.center = point(0.5, 0.7);
    let segments = vec![first, second, third];

    let result = prepare_texts(full_hd(), fx_text(5.0), &segments, &[0, 2]);
    assert_eq!(result.len(), 1);
    assert_eq!(result[0].content, "Second");
}

#[test]
fn test_keyframe_opacity_during_fade_out() {
    let mut segment = text_segment(0.0, 10.0);
    segment.fade_duration = fx_text(2.0);
    segment.keyframes = TextKeyframes { position: vec![], opacity: vec![scalar_key(0.0, 0.5)] };

    let result = prepare_texts(full_hd(), fx_text(9.0), &[segment], &[]);
    assert_eq!(result.len(), 1);
    let expected_fade_out = 1.0 / 2.0;
    let expected_opacity = 0.5 * expected_fade_out;
    assert!((fl_text(result[0].opacity) - expected_opacity).abs() < 1e-6);
}

#[test]
fn hex_colors_need_six_digits() {
    assert_eq!(parse_hex_color("#1a2B3c"), Some((0x1a, 0x2b, 0x3c)));
    assert_eq!(parse_hex_color("##1a2B3c"), Some((0x1a, 0x2b, 0x3c)));
    assert_eq!(parse_hex_color("1a2B3c"), Some((0x1a, 0x2b, 0x3c)));
    assert_eq!(parse_hex_color("#1a2B3"), None);
    assert_eq!(parse_hex_color("#1a2B3c4"), None);
    assert_eq!(parse_hex_color("#1a2B3g"), None);
    assert_eq!(parse_hex_color("#+f+f+f"), None);
    assert_eq!(parse_hex_color("1a2B3c#"), None);
    assert_eq!(parse_hex_color("#"), None);
    assert_eq!(parse_color("#336699"), [200_000_000, 400_000_000, 600_000_000, 1_000_000_000]);
}

#[test]
fn keyframes_sort_by_time_and_keep_ties_in_order() {
    let times = vec![fx_text(2.0), fx_text(1.0), fx_text(2.0), fx_text(0.5), fx_text(1.0)];
    assert_eq!(sort_order(&times), vec![3, 1, 4, 0, 2]);
    assert_eq!(sort_order(&vec![]), Vec::<usize>::new());
}

#[test]
fn earliest_keyframe_value_is_taken_as_it_stands() {
    let keys = vec![scalar_key(1.0, 2.0), scalar_key(2.0, -1.0)];
    assert_eq!(interpolate_text_scalar(fx_text(0.5), &keys, fx_text(0.5)), fx_text(2.0));
    assert_eq!(interpolate_text_scalar(fx_text(0.5), &keys, fx_text(3.0)), 0);
}

#[test]
fn text_bounds_are_centered_and_stay_in_the_frame() {
    let mut segment = text_segment(0.0, 10.0);
    segment.size = point(0.5, 0.5);
    let centered = prepare_texts(full_hd(), fx_text(5.0), &[segment.clone()], &[]);
    assert_eq!(
        centered[0].bounds,
        [fx_text(480.0), fx_text(270.0), fx_text(1440.0), fx_text(810.0)]
    );

    segment.center = point(3.0, -2.0);
    let pushed = prepare_texts(full_hd(), fx_text(5.0), &[segment.clone()], &[]);
    assert_eq!(
        pushed[0].bounds,
        [fx_text(1440.0), fx_text(0.0), fx_text(1920.0), fx_text(540.0)]
    );

    segment.keyframes =
        TextKeyframes { position: vec![vector_key(0.0, -0.15, 7.0)], opacity: vec![] };
    let keyed = prepare_texts(full_hd(), fx_text(5.0), &[segment], &[]);
    let [left, top, right, bottom] = keyed[0].bounds;
    assert!(0 <= left && left <= right && right <= fx_text(1920.0));
    assert!(0 <= top && top <= bottom && bottom <= fx_text(1080.0));
}

#[test]
fn font_size_scales_with_box_and_frame() {
    let segment = text_segment(0.0, 10.0);
    let at_1080p = prepare_texts(full_hd(), fx_text(5.0), &[segment.clone()], &[]);
    assert_eq!(at_1080p[0].font_size, fx_text(48.0));
    let at_4k = prepare_texts(XY::new(3840, 2160), fx_text(5.0), &[segment.clone()], &[]);
    assert_eq!(at_4k[0].font_size, fx_text(96.0));
    let flat = prepare_texts(XY::new(0, 0), fx_text(5.0), &[segment.clone()], &[]);
    assert_eq!(flat[0].font_size, 0);
    let mut tall = segment.clone();
    tall.size = point(0.35, 2.0);
    let capped = prepare_texts(XY::new(3840, 2160), fx_text(5.0), &[tall], &[]);
    assert_eq!(capped[0].font_size, fx_text(256.0));
    let mut low = segment.clone();
    low.size = point(0.35, 0.01);
    let quartered = prepare_texts(full_hd(), fx_text(5.0), &[low], &[]);
    assert_eq!(quartered[0].font_size, fx_text(12.0));
    let mut tiny = segment;
    tiny.font_size = fx_text(0.5);
    let small = prepare_texts(full_hd(), fx_text(5.0), &[tiny.clone()], &[]);
    assert_eq!(small[0].font_size, fx_text(0.5));
    let halved = prepare_texts(XY::new(960, 540), fx_text(5.0), &[tiny], &[]);
    assert_eq!(halved[0].font_size, fx_text(0.25));
}
