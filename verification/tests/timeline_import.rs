use cap_core::project::{AudioConfiguration, ProjectConfiguration, SceneMode, StereoMode};
use cap_core::project::{TimelineConfiguration, TimelineSegment};
use cap_core::timeline_import::{
    apply_import, transform_scene_changes, transform_scene_mode, transform_text_segment,
    validate_import, ImportMergeMode, ImportSceneChange, ImportSceneMode, ImportScalarKeyframe,
    ImportTextKeyframes, ImportTextSegment, ImportVectorKeyframe, ImportXY, TimelineImport,
    TimelineImportError,
};

fn fx(value: f64) -> i64 {
    (value * 1e9).round() as i64
}

fn weight(text: &str) -> Option<i64> {
    text.parse::<f32>().ok().map(|w| fx(w as f64))
}

fn plain_segment(start: f64, end: f64, content: &str) -> ImportTextSegment {
    ImportTextSegment {
        start: fx(start),
        end: fx(end),
        content: content.to_string(),
        center: None,
        font_size: None,
        font_family: None,
        font_weight: None,
        font_color: None,
        fade_duration: None,
        keyframes: None,
    }
}

fn empty_project() -> ProjectConfiguration {
    ProjectConfiguration {
        timeline: None,
        clips: vec![],
        audio: AudioConfiguration {
            mute: false,
            mic_volume_db: 0,
            mic_stereo_mode: StereoMode::Stereo,
            system_volume_db: 0,
        },
    }
}

#[test]
fn test_version_mismatch_validation() {
    let import = TimelineImport {
        version: "2.0.0".to_string(),
        text_segments: vec![],
        scene_changes: vec![],
    };

    let result = validate_import(&import);
    assert!(matches!(
        result,
        Err(TimelineImportError::UnsupportedVersion(v)) if v == "2.0.0"
    ));
}

#[test]
fn test_invalid_time_range_validation() {
    let import = TimelineImport {
        version: "1.0.0".to_string(),
        text_segments: vec![plain_segment(5.0, 3.0, "Test")],
        scene_changes: vec![],
    };

    let result = validate_import(&import);
    assert!(matches!(
        result,
        Err(TimelineImportError::InvalidTimeRange { index: 0, start, end })
            if start == fx(5.0) && end == fx(3.0)
    ));
}

#[test]
fn test_empty_content_validation() {
    let import = TimelineImport {
        version: "1.0.0".to_string(),
        text_segments: vec![plain_segment(0.0, 5.0, "   ")],
        scene_changes: vec![],
    };

    let result = validate_import(&import);
    assert!(matches!(
        result,
        Err(TimelineImportError::EmptyContent { index: 0 })
    ));
}

#[test]
fn test_unsorted_scene_changes_validation() {
    let import = TimelineImport {
        version: "1.0.0".to_string(),
        text_segments: vec![],
        scene_changes: vec![
            ImportSceneChange { time: fx(5.0), mode: ImportSceneMode::Screen },
            ImportSceneChange { time: fx(2.0), mode: ImportSceneMode::Camera },
        ],
    };

    let result = validate_import(&import);
    assert!(matches!(
        result,
        Err(TimelineImportError::UnsortedSceneChanges)
    ));
}

#[test]
fn test_negative_keyframe_time_validation() {
    let mut segment = plain_segment(0.0, 5.0, "Test");
    segment.keyframes = Some(ImportTextKeyframes {
        position: vec![ImportVectorKeyframe { time: fx(-1.0), x: fx(0.5), y: fx(0.5) }],
        opacity: vec![],
    });
    let import = TimelineImport {
        version: "1.0.0".to_string(),
        text_segments: vec![segment],
        scene_changes: vec![],
    };

    let result = validate_import(&import);
    assert!(matches!(
        result,
        Err(TimelineImportError::NegativeKeyframeTime { index: 0, time }) if time == fx(-1.0)
    ));
}

#[test]
fn test_text_segment_transformation_with_defaults() {
    let import_seg = plain_segment(1.0, 5.0, "Hello World");

    let result = transform_text_segment(&import_seg);

    assert_eq!(result.start, fx(1.0));
    assert_eq!(result.end, fx(5.0));
    assert_eq!(result.content, "Hello World");
    assert_eq!(result.center.x, fx(0.5));
    assert_eq!(result.center.y, fx(0.5));
    assert_eq!(result.font_size, fx(50.0));
    assert_eq!(result.font_family, "Inter");
    assert_eq!(result.font_weight, fx(700.0));
    assert_eq!(result.color, "#FFFFFF");
    assert_eq!(result.fade_duration, fx(0.0));
    assert!(result.enabled);
}

#[test]
fn test_text_segment_transformation_with_values() {
    let import_seg = ImportTextSegment {
        start: fx(2.0),
        end: fx(10.0),
        content: "Custom Text".to_string(),
        center: Some(ImportXY { x: fx(0.3), y: fx(0.7) }),
        font_size: Some(fx(60.0)),
        font_family: Some("Arial".to_string()),
        font_weight: weight("800"),
        font_color: Some("#FF0000".to_string()),
        fade_duration: Some(fx(0.5)),
        keyframes: Some(ImportTextKeyframes {
            position: vec![
                ImportVectorKeyframe { time: fx(0.0), x: fx(0.2), y: fx(0.8) },
                ImportVectorKeyframe { time: fx(1.0), x: fx(0.5), y: fx(0.5) },
            ],
            opacity: vec![
                ImportScalarKeyframe { time: fx(0.0), value: fx(0.0) },
                ImportScalarKeyframe { time: fx(0.5), value: fx(1.0) },
            ],
        }),
    };

    let result = transform_text_segment(&import_seg);

    assert_eq!(result.start, fx(2.0));
    assert_eq!(result.end, fx(10.0));
    assert_eq!(result.content, "Custom Text");
    assert_eq!(result.center.x, fx(0.3));
    assert_eq!(result.center.y, fx(0.7));
    assert_eq!(result.font_size, fx(60.0));
    assert_eq!(result.font_family, "Arial");
    assert_eq!(result.font_weight, fx(800.0));
    assert_eq!(result.color, "#FF0000");
    assert_eq!(result.fade_duration, fx(0.5));
    assert_eq!(result.keyframes.position.len(), 2);
    assert_eq!(result.keyframes.opacity.len(), 2);
}

#[test]
fn test_scene_mode_transformation() {
    assert!(matches!(
        transform_scene_mode(&ImportSceneMode::Camera),
        SceneMode::CameraOnly
    ));
    assert!(matches!(
        transform_scene_mode(&ImportSceneMode::Screen),
        SceneMode::Default
    ));
    assert!(matches!(
        transform_scene_mode(&ImportSceneMode::SplitScreenLeft),
        SceneMode::SplitScreenLeft
    ));
    assert!(matches!(
        transform_scene_mode(&ImportSceneMode::SplitScreenRight),
        SceneMode::SplitScreenRight
    ));
}

#[test]
fn test_scene_changes_transformation() {
    let changes = vec![
        ImportSceneChange { time: fx(0.0), mode: ImportSceneMode::Screen },
        ImportSceneChange { time: fx(5.0), mode: ImportSceneMode::SplitScreenRight },
        ImportSceneChange { time: fx(15.0), mode: ImportSceneMode::Screen },
    ];

    let segments = transform_scene_changes(&changes, fx(30.0));

    assert_eq!(segments.len(), 3);
    assert_eq!(segments[0].start, fx(0.0));
    assert_eq!(segments[0].end, fx(5.0));
    assert!(matches!(segments[0].mode, SceneMode::Default));
    assert_eq!(segments[1].start, fx(5.0));
    assert_eq!(segments[1].end, fx(15.0));
    assert!(matches!(segments[1].mode, SceneMode::SplitScreenRight));
    assert_eq!(segments[2].start, fx(15.0));
    assert_eq!(segments[2].end, fx(30.0));
    assert!(matches!(segments[2].mode, SceneMode::Default));
}

#[test]
fn test_position_value_clamping() {
    let mut import_seg = plain_segment(0.0, 5.0, "Test");
    import_seg.center = Some(ImportXY { x: fx(1.5), y: fx(-0.5) });
    import_seg.keyframes = Some(ImportTextKeyframes {
        position: vec![ImportVectorKeyframe { time: fx(0.0), x: fx(2.0), y: fx(-1.0) }],
        opacity: vec![ImportScalarKeyframe { time: fx(0.0), value: fx(1.5) }],
    });

    let result = transform_text_segment(&import_seg);

    assert_eq!(result.center.x, fx(1.0));
    assert_eq!(result.center.y, fx(0.0));
    assert_eq!(result.keyframes.position[0].x, fx(1.0));
    assert_eq!(result.keyframes.position[0].y, fx(0.0));
    assert_eq!(result.keyframes.opacity[0].value, fx(1.0));
}

#[test]
fn test_validation_generates_warnings_for_out_of_range() {
    let mut segment = plain_segment(0.0, 5.0, "Test");
    segment.center = Some(ImportXY { x: fx(1.5), y: fx(-0.2) });
    let import = TimelineImport {
        version: "1.0.0".to_string(),
        text_segments: vec![segment],
        scene_changes: vec![],
    };

    let result = validate_import(&import);
    assert!(result.is_ok());
    let warnings = result.unwrap();
    assert_eq!(warnings.len(), 2);
    assert!(warnings[0].contains("center.x"));
    assert!(warnings[1].contains("center.y"));
}

#[test]
fn test_empty_scene_changes() {
    let segments = transform_scene_changes(&[], fx(30.0));
    assert!(segments.is_empty());
}

#[test]
fn test_duplicate_scene_time_validation() {
    let import = TimelineImport {
        version: "1.0.0".to_string(),
        text_segments: vec![],
        scene_changes: vec![
            ImportSceneChange { time: fx(5.0), mode: ImportSceneMode::Screen },
            ImportSceneChange { time: fx(5.0), mode: ImportSceneMode::Camera },
        ],
    };

    let result = validate_import(&import);
    assert!(matches!(
        result,
        Err(TimelineImportError::DuplicateSceneTime { time }) if time == fx(5.0)
    ));
}

#[test]
fn test_valid_import_no_warnings() {
    let mut segment = plain_segment(0.0, 5.0, "Valid text");
    segment.center = Some(ImportXY { x: fx(0.5), y: fx(0.5) });
    segment.font_size = Some(fx(48.0));
    let import = TimelineImport {
        version: "1.0.0".to_string(),
        text_segments: vec![segment],
        scene_changes: vec![
            ImportSceneChange { time: fx(0.0), mode: ImportSceneMode::Screen },
            ImportSceneChange { time: fx(5.0), mode: ImportSceneMode::Camera },
        ],
    };

    let result = validate_import(&import);
    assert!(result.is_ok());
    assert!(result.unwrap().is_empty());
}

#[test]
fn warnings_spell_out_segment_field_and_value() {
    let mut segment = plain_segment(0.0, 5.0, "Test");
    segment.center = Some(ImportXY { x: fx(1.5), y: fx(-0.2) });
    segment.keyframes = Some(ImportTextKeyframes {
        position: vec![
            ImportVectorKeyframe { time: fx(0.0), x: fx(0.5), y: fx(0.5) },
            ImportVectorKeyframe { time: fx(1.0), x: fx(-3.0), y: fx(1.25) },
        ],
        opacity: vec![ImportScalarKeyframe { time: fx(0.0), value: fx(2.0) }],
    });
    let import = TimelineImport {
        version: "1.0.0".to_string(),
        text_segments: vec![plain_segment(0.0, 1.0, "first"), segment],
        scene_changes: vec![],
    };

    let warnings = validate_import(&import).unwrap();
    assert_eq!(
        warnings,
        vec![
            "Segment 1: center.x (1.5) will be clamped to [0.0, 1.0]".to_string(),
            "Segment 1: center.y (-0.2) will be clamped to [0.0, 1.0]".to_string(),
            "Segment 1: position keyframe 1 x (-3) will be clamped to [0.0, 1.0]".to_string(),
            "Segment 1: position keyframe 1 y (1.25) will be clamped to [0.0, 1.0]".to_string(),
            "Segment 1: opacity keyframe 0 value (2) will be clamped to [0.0, 1.0]".to_string(),
        ]
    );
}

#[test]
fn first_fault_wins_over_later_faults_and_warnings() {
    let mut clamped = plain_segment(0.0, 5.0, "Test");
    clamped.center = Some(ImportXY { x: fx(1.5), y: fx(0.5) });
    let mut late_keyframe = plain_segment(0.0, 5.0, "Test");
    late_keyframe.keyframes = Some(ImportTextKeyframes {
        position: vec![],
        opacity: vec![ImportScalarKeyframe { time: fx(-0.5), value: fx(0.5) }],
    });
    let import = TimelineImport {
        version: "1.0.0".to_string(),
        text_segments: vec![clamped, late_keyframe, plain_segment(3.0, 3.0, "Test")],
        scene_changes: vec![
            ImportSceneChange { time: fx(5.0), mode: ImportSceneMode::Screen },
            ImportSceneChange { time: fx(2.0), mode: ImportSceneMode::Camera },
        ],
    };

    assert!(matches!(
        validate_import(&import),
        Err(TimelineImportError::NegativeKeyframeTime { index: 1, time }) if time == fx(-0.5)
    ));
}

#[test]
fn blank_content_covers_all_white_space() {
    for content in ["", " ", "\t\n", "\u{a0}\u{2003}\u{3000}"] {
        let import = TimelineImport {
            version: "1.0.0".to_string(),
            text_segments: vec![plain_segment(0.0, 1.0, content)],
            scene_changes: vec![],
        };
        assert!(matches!(
            validate_import(&import),
            Err(TimelineImportError::EmptyContent { index: 0 })
        ));
    }
    let import = TimelineImport {
        version: "1.0.0".to_string(),
        text_segments: vec![plain_segment(0.0, 1.0, " \u{200b} ")],
        scene_changes: vec![],
    };
    assert!(validate_import(&import).is_ok());
}

#[test]
fn scene_changes_drop_empty_segments() {
    let changes = vec![
        ImportSceneChange { time: fx(0.0), mode: ImportSceneMode::Camera },
        ImportSceneChange { time: fx(40.0), mode: ImportSceneMode::Screen },
    ];
    let segments = transform_scene_changes(&changes, fx(30.0));
    assert_eq!(segments.len(), 1);
    assert_eq!((segments[0].start, segments[0].end), (fx(0.0), fx(40.0)));
    assert!(matches!(segments[0].mode, SceneMode::CameraOnly));
}

#[test]
fn rejected_import_leaves_project_untouched() {
    let mut config = empty_project();
    let import = TimelineImport {
        version: "2.0.0".to_string(),
        text_segments: vec![plain_segment(0.0, 1.0, "Test")],
        scene_changes: vec![],
    };
    let result = apply_import(&mut config, &import, ImportMergeMode::Replace);
    assert!(matches!(
        result,
        Err(TimelineImportError::UnsupportedVersion(v)) if v == "2.0.0"
    ));
    assert!(config.timeline.is_none());
}

#[test]
fn replace_keeps_scenes_when_import_has_none() {
    let mut config = empty_project();
    config.timeline = Some(TimelineConfiguration {
        segments: vec![TimelineSegment {
            recording_clip: 0,
            start: 0,
            end: fx(30.0),
            timescale: fx(1.0),
        }],
        scene_segments: transform_scene_changes(
            &[ImportSceneChange { time: fx(0.0), mode: ImportSceneMode::Camera }],
            fx(30.0),
        ),
        text_segments: vec![transform_text_segment(&plain_segment(0.0, 1.0, "Old"))],
    });
    let import = TimelineImport {
        version: "1.0.0".to_string(),
        text_segments: vec![plain_segment(1.0, 2.0, "New")],
        scene_changes: vec![],
    };
    let result = apply_import(&mut config, &import, ImportMergeMode::Replace).unwrap();
    assert_eq!(result.text_segments_imported, 1);
    assert_eq!(result.scene_segments_created, 0);
    let timeline = config.timeline.unwrap();
    assert_eq!(timeline.text_segments.len(), 1);
    assert_eq!(timeline.text_segments[0].content, "New");
    assert_eq!(timeline.scene_segments.len(), 1);
    assert_eq!(timeline.segments.len(), 1);
}

#[test]
fn append_adds_behind_and_cuts_scenes_at_timeline_end() {
    let mut config = empty_project();
    config.timeline = Some(TimelineConfiguration {
        segments: vec![TimelineSegment {
            recording_clip: 0,
            start: 0,
            end: fx(30.0),
            timescale: fx(1.0),
        }],
        scene_segments: vec![],
        text_segments: vec![transform_text_segment(&plain_segment(0.0, 1.0, "Old"))],
    });
    let import = TimelineImport {
        version: "1.0.0".to_string(),
        text_segments: vec![plain_segment(1.0, 2.0, "New")],
        scene_changes: vec![
            ImportSceneChange { time: fx(0.0), mode: ImportSceneMode::Screen },
            ImportSceneChange { time: fx(5.0), mode: ImportSceneMode::SplitScreenRight },
        ],
    };
    let result = apply_import(&mut config, &import, ImportMergeMode::Append).unwrap();
    assert_eq!(result.text_segments_imported, 1);
    assert_eq!(result.scene_segments_created, 2);
    assert!(result.warnings.is_empty());
    let timeline = config.timeline.unwrap();
    assert_eq!(timeline.text_segments.len(), 2);
    assert_eq!(timeline.text_segments[1].content, "New");
    assert_eq!(timeline.scene_segments.len(), 2);
    assert_eq!(timeline.scene_segments[1].end, fx(30.0));
}

#[test]
fn import_into_project_without_timeline_makes_one() {
    let mut config = empty_project();
    let import = TimelineImport {
        version: "1.0.0".to_string(),
        text_segments: vec![plain_segment(1.0, 2.0, "New")],
        scene_changes: vec![ImportSceneChange { time: fx(1.0), mode: ImportSceneMode::Camera }],
    };
    let result = apply_import(&mut config, &import, ImportMergeMode::default()).unwrap();
    assert_eq!(result.text_segments_imported, 1);
    assert_eq!(result.scene_segments_created, 0);
    let timeline = config.timeline.unwrap();
    assert_eq!(timeline.text_segments.len(), 1);
    assert!(timeline.scene_segments.is_empty());
    assert!(timeline.segments.is_empty());
}

#[test]
fn validating_twice_gives_the_same() {
    let mut segment = plain_segment(0.0, 5.0, "Test");
    segment.center = Some(ImportXY { x: fx(1.5), y: fx(0.5) });
    let passing = TimelineImport {
        version: "1.0.0".to_string(),
        text_segments: vec![segment],
        scene_changes: vec![ImportSceneChange { time: fx(1.0), mode: ImportSceneMode::Camera }],
    };
    let first = validate_import(&passing).unwrap();
    let second = validate_import(&passing).unwrap();
    assert_eq!(first, second);
    assert_eq!(first.len(), 1);

    let imported = transform_text_segment(&passing.text_segments[0]);
    assert_eq!(imported.center.x, fx(1.0));
    let again = TimelineImport {
        version: "1.0.0".to_string(),
        text_segments: vec![ImportTextSegment {
            center: Some(ImportXY { x: imported.center.x, y: imported.center.y }),
            ..plain_segment(0.0, 5.0, "Test")
        }],
        scene_changes: vec![],
    };
    assert!(validate_import(&again).unwrap().is_empty());
}
