use cap_core::audio::{
    compute_timeline_hash, equilibrium, playhead_to_samples, ring_places_for,
    samples_to_playhead, words_from_bytes, AudioInfo,
    AudioPlaybackBuffer, AudioRenderer, AudioRendererCursor, AudioSegment, AudioSegmentTrack,
    PredecodedAudio, PredecodedRoute, PrerenderJob, PrerenderedAudioBuffer, SampleFormat,
    TrackKind,
};
use cap_core::mixer::{render_audio, AudioData, AudioRendererTrack};
use cap_core::project::{
    AudioConfiguration, ClipConfiguration, ClipOffsets, ProjectConfiguration, StereoMode,
    TimelineConfiguration, TimelineSegment,
};
use std::cell::RefCell;
use std::sync::Arc;

fn fx_audio(value: f64) -> i64 {
    (value * 1e9).round() as i64
}

fn project_with(segments: Vec<TimelineSegment>) -> ProjectConfiguration {
    ProjectConfiguration {
        timeline: Some(TimelineConfiguration {
            segments,
            scene_segments: vec![],
            text_segments: vec![],
        }),
        clips: vec![ClipConfiguration {
            index: 1,
            offsets: ClipOffsets { camera: 0, mic: fx_audio(0.5), system_audio: fx_audio(-0.25) },
        }],
        audio: AudioConfiguration {
            mute: false,
            mic_volume_db: fx_audio(-6.0),
            mic_stereo_mode: StereoMode::MonoL,
            system_volume_db: fx_audio(-40.0),
        },
    }
}

fn two_clips() -> ProjectConfiguration {
    project_with(vec![
        TimelineSegment { recording_clip: 0, start: 0, end: fx_audio(2.0), timescale: fx_audio(1.0) },
        TimelineSegment {
            recording_clip: 1,
            start: fx_audio(2.0),
            end: fx_audio(4.0),
            timescale: fx_audio(1.0),
        },
        TimelineSegment {
            recording_clip: 0,
            start: fx_audio(4.0),
            end: fx_audio(6.0),
            timescale: fx_audio(2.0),
        },
    ])
}

fn tone(frames: usize, left: f64, right: f64) -> Arc<AudioData> {
    let mut samples = Vec::with_capacity(frames * 2);
    for _ in 0..frames {
        samples.push(fx_audio(left));
        samples.push(fx_audio(right));
    }
    Arc::new(AudioData { samples })
}

fn clip_audio() -> Vec<AudioSegment> {
    vec![
        AudioSegment {
            tracks: vec![AudioSegmentTrack::new(tone(96_000, 0.5, 0.25), TrackKind::Mic)],
        },
        AudioSegment {
            tracks: vec![
                AudioSegmentTrack::new(tone(48_000, 0.5, 0.25), TrackKind::Mic),
                AudioSegmentTrack::new(tone(60_000, 0.125, 0.125), TrackKind::SystemAudio),
            ],
        },
    ]
}

fn half(_db: i64) -> i64 {
    500_000_000
}

fn as_words(frame: Option<(usize, Vec<i64>)>) -> Option<Vec<u64>> {
    frame.map(|(_, data)| data.into_iter().map(|s| s as u64).collect())
}

#[test]
fn samples_and_seconds_convert_at_the_mix_rate() {
    assert_eq!(playhead_to_samples(fx_audio(1.0)), 48_000);
    assert_eq!(playhead_to_samples(fx_audio(0.5)), 24_000);
    assert_eq!(playhead_to_samples(fx_audio(-3.0)), 0);
    assert_eq!(playhead_to_samples(20_833), 0);
    assert_eq!(playhead_to_samples(20_834), 1);
    assert_eq!(samples_to_playhead(48_000), fx_audio(1.0));
    assert_eq!(samples_to_playhead(1), 20_833);
}

#[test]
fn timeline_cursor_maps_time_to_clip_time() {
    let project = two_clips();
    let (time, segment) = project.get_segment_time(fx_audio(2.0)).unwrap();
    assert_eq!((time, segment.recording_clip), (0, 1));
    let (time, segment) = project.get_segment_time(fx_audio(1.999)).unwrap();
    assert_eq!((time, segment.recording_clip), (fx_audio(1.999), 0));
    let (time, segment) = project.get_segment_time(fx_audio(5.0)).unwrap();
    assert_eq!((time, segment.timescale), (fx_audio(2.0), fx_audio(2.0)));
    assert!(project.get_segment_time(fx_audio(6.0)).is_none());
    assert!(project.get_segment_time(fx_audio(-0.1)).is_none());
    assert_eq!(project.timeline.as_ref().unwrap().duration(), fx_audio(6.0));
    assert_eq!(project.clip_offsets(1).mic, fx_audio(0.5));
    assert_eq!(project.clip_offsets(7), ClipOffsets::default());
}

#[test]
fn set_playhead_places_both_counters() {
    let project = two_clips();
    let mut renderer = AudioRenderer::new(clip_audio());
    renderer.set_playhead(fx_audio(2.5), &project);
    assert_eq!(renderer.elapsed_samples, 120_000);
    assert_eq!(
        renderer.cursor,
        AudioRendererCursor { clip_index: 1, timescale: fx_audio(1.0), samples: 24_000 }
    );
    renderer.set_playhead(fx_audio(9.0), &project);
    assert_eq!(renderer.elapsed_samples, 432_000);
    assert_eq!(
        renderer.cursor,
        AudioRendererCursor { clip_index: 0, timescale: fx_audio(1.0), samples: 432_000 }
    );
}

#[test]
fn cursor_snaps_only_on_real_drift() {
    let project = two_clips();
    let timeline = project.timeline.as_ref().unwrap();
    let mut renderer = AudioRenderer::new(clip_audio());
    renderer.elapsed_samples = 48_000;
    renderer.cursor.samples = 48_000 + 1_600;
    renderer.adjust_cursor(timeline);
    assert_eq!(renderer.cursor.samples, 49_600);
    renderer.cursor.samples = 48_000 + 1_601;
    renderer.adjust_cursor(timeline);
    assert_eq!(renderer.cursor.samples, 48_000);
    renderer.elapsed_samples = 2 * 48_000 + 480;
    renderer.adjust_cursor(timeline);
    assert_eq!(
        renderer.cursor,
        AudioRendererCursor { clip_index: 1, timescale: fx_audio(1.0), samples: 480 }
    );
}

#[test]
fn mixer_sums_routes_and_scales() {
    let left_only = AudioData { samples: vec![fx_audio(0.5), fx_audio(-0.25), fx_audio(0.1), fx_audio(0.3)] };
    let quiet = AudioData { samples: vec![fx_audio(0.2), fx_audio(0.4)] };
    let track = |data, gain, stereo_mode, offset| AudioRendererTrack { data, gain, stereo_mode, offset };
    let one = Some(fx_audio(1.0));

    let stereo = [track(&left_only, one, StereoMode::Stereo, 0)];
    assert_eq!(
        render_audio(&stereo, 0, 2),
        (2, vec![fx_audio(0.5), fx_audio(-0.25), fx_audio(0.1), fx_audio(0.3)])
    );
    let mono_l = [track(&left_only, one, StereoMode::MonoL, 0)];
    assert_eq!(render_audio(&mono_l, 1, 5), (1, vec![fx_audio(0.1), fx_audio(0.1)]));
    let mono_r = [track(&left_only, Some(fx_audio(2.0)), StereoMode::MonoR, 0)];
    assert_eq!(render_audio(&mono_r, 0, 1), (1, vec![fx_audio(-0.5), fx_audio(-0.5)]));
    let mono_mix = [track(&left_only, one, StereoMode::MonoMix, 0)];
    assert_eq!(
        render_audio(&mono_mix, 0, 2),
        (2, vec![fx_audio(0.125), fx_audio(0.125), fx_audio(0.2), fx_audio(0.2)])
    );

    let both = [
        track(&left_only, Some(fx_audio(0.5)), StereoMode::Stereo, 1),
        track(&quiet, one, StereoMode::Stereo, 2),
        track(&left_only, None, StereoMode::Stereo, 0),
    ];
    assert_eq!(
        render_audio(&both, 0, 10),
        (
            3,
            vec![
                0,
                0,
                fx_audio(0.25),
                fx_audio(-0.125),
                fx_audio(0.05) + fx_audio(0.2),
                fx_audio(0.15) + fx_audio(0.4),
            ]
        )
    );
    assert_eq!(render_audio(&both, 3, 10), (0, vec![]));
    assert_eq!(render_audio(&[], 0, 10), (0, vec![]));
    let early = [track(&quiet, one, StereoMode::Stereo, -5)];
    assert_eq!(render_audio(&early, 0, 4), (0, vec![]));
    let loud = [
        track(&left_only, Some(i64::MAX), StereoMode::Stereo, 0),
        track(&left_only, Some(i64::MAX), StereoMode::Stereo, 0),
        track(&left_only, Some(i64::MAX), StereoMode::Stereo, 0),
    ];
    assert_eq!(
        render_audio(&loud, 0, 1).1,
        vec![i64::MAX, -6_917_529_027_641_081_853]
    );
}

#[test]
fn render_mixes_what_the_clip_offers() {
    let project = two_clips();
    let mut renderer = AudioRenderer::new(clip_audio());
    renderer.set_playhead(fx_audio(2.0), &project);
    let asked: RefCell<Vec<i64>> = RefCell::new(vec![]);
    let gain_of = |db: i64| {
        asked.borrow_mut().push(db);
        fx_audio(0.5)
    };
    let (count, data) = renderer.render_frame_raw(1_024, &project, &gain_of).unwrap();
    assert_eq!((count, data.len()), (1_024, 2_048));
    assert!(data.iter().all(|s| *s == 0));
    assert_eq!(*asked.borrow(), vec![fx_audio(-6.0)]);
    assert_eq!(renderer.elapsed_samples, 96_000 + 1_024);
    assert_eq!(renderer.cursor.samples, 1_024);

    renderer.set_playhead(fx_audio(2.5), &project);
    let (count, data) = renderer.render_frame_raw(4, &project, &half).unwrap();
    assert_eq!(count, 4);
    assert_eq!(data, vec![fx_audio(0.25); 8]);
}

#[test]
fn render_is_cut_at_the_end_of_the_longest_track() {
    let project = two_clips();
    let mut renderer = AudioRenderer::new(clip_audio());
    renderer.set_playhead(fx_audio(2.0), &project);
    renderer.elapsed_samples = 96_000 + 71_000;
    renderer.cursor.samples = 71_000;
    let (count, data) = renderer.render_frame_raw(4_096, &project, &half).unwrap();
    assert_eq!((count, data.len()), (1_000, 2_000));
    assert_eq!(renderer.cursor.samples, 72_000);
    assert!(renderer.render_frame_raw(4_096, &project, &half).is_none());
    assert_eq!(renderer.elapsed_samples, 96_000 + 72_000 + 4_096);
}

#[test]
fn muted_project_is_rendered_as_silence() {
    let mut project = two_clips();
    project.audio.mute = true;
    let mut renderer = AudioRenderer::new(clip_audio());
    renderer.set_playhead(0, &project);
    let never = |_db: i64| -> i64 { panic!("a muted track has no gain") };
    let (count, data) = renderer.render_frame_raw(10, &project, &never).unwrap();
    assert_eq!(count, 10);
    assert_eq!(data, vec![0; 20]);
}

#[test]
fn tracks_at_minus_thirty_decibels_are_not_heard() {
    let mut project = two_clips();
    project.audio.mic_volume_db = fx_audio(-30.0);
    let mut renderer = AudioRenderer::new(clip_audio());
    renderer.set_playhead(0, &project);
    let never = |_db: i64| -> i64 { panic!("a silent track has no gain") };
    let (_, data) = renderer.render_frame_raw(4, &project, &never).unwrap();
    assert_eq!(data, vec![0; 8]);
    project.audio.mic_volume_db = fx_audio(-30.0) + 1;
    renderer.set_playhead(0, &project);
    let (_, data) = renderer.render_frame_raw(4, &project, &half).unwrap();
    assert_eq!(data, vec![fx_audio(0.25); 8]);
}

#[test]
fn fast_segments_and_unknown_clips_are_silent() {
    let project = two_clips();
    let mut renderer = AudioRenderer::new(clip_audio());
    renderer.set_playhead(fx_audio(4.5), &project);
    assert!(renderer.render_frame_raw(512, &project, &half).is_none());
    assert_eq!(renderer.elapsed_samples, 216_000 + 512);

    let far = project_with(vec![TimelineSegment {
        recording_clip: 9,
        start: 0,
        end: fx_audio(1.0),
        timescale: fx_audio(1.0),
    }]);
    let mut renderer = AudioRenderer::new(clip_audio());
    renderer.set_playhead(0, &far);
    assert!(renderer.mix_at_cursor(512, &far, &half).is_none());
}

#[test]
fn rendered_frames_carry_the_mix_rate_and_no_time_stamp() {
    let project = two_clips();
    let mut renderer = AudioRenderer::new(clip_audio());
    renderer.set_playhead(0, &project);
    let frame = renderer.render_frame(480, &project, &half).unwrap();
    assert_eq!((frame.samples, frame.rate, frame.data.len()), (480, 48_000, 960));
    assert_eq!(&frame.data[..2], &[fx_audio(0.25), fx_audio(0.25)]);
    assert!(frame.pts.is_none());
    renderer.set_playhead(fx_audio(4.5), &project);
    assert!(renderer.render_frame(480, &project, &half).is_none());
}

#[test]
fn mix_format_is_stereo_float_at_48k() {
    let info = AudioRenderer::info();
    assert_eq!((info.sample_rate, info.channels, info.sample_size()), (48_000, 2, 4));
    assert!(info.matches_mix());
    let wide = AudioInfo { sample_format: SampleFormat::I16, sample_rate: 44_100, channels: 12 };
    assert_eq!(wide.for_ffmpeg_output().channels, 8);
    assert!(!wide.matches_mix());
    assert_eq!(SampleFormat::F64.bytes(), 8);
    assert_eq!(SampleFormat::U8.bytes(), 1);
}

#[test]
fn prerendered_buffer_fills_and_pads_with_silence() {
    let info = AudioInfo { sample_format: SampleFormat::I16, sample_rate: 10, channels: 2 };
    let mut buffer = PrerenderedAudioBuffer::from_samples((1u16..=50).collect(), info, 0u16);
    buffer.set_playhead(fx_audio(2.3));
    assert_eq!(buffer.read_position, 46);
    assert_eq!(buffer.current_playhead_secs(), fx_audio(2.3));
    let mut out = vec![9u16; 6];
    buffer.fill(&mut out);
    assert_eq!(out, vec![47, 48, 49, 50, 0, 0]);
    assert_eq!(buffer.read_position, 50);
    buffer.fill(&mut out);
    assert_eq!(out, vec![0; 6]);
    assert_eq!(buffer.read_position, 50);
    buffer.set_playhead(fx_audio(100.0));
    assert_eq!(buffer.read_position, 50);
    buffer.set_playhead(fx_audio(-1.0));
    assert_eq!(buffer.read_position, 0);
    assert_eq!(buffer.into_samples().len(), 50);
}

#[test]
fn predecoded_audio_is_routed_by_format() {
    let audio = PredecodedAudio {
        samples: vec![1u32, 2, 3, 4],
        sample_rate: 48_000,
        channels: 2,
        timeline_hash: 0,
    };
    let same = AudioInfo { sample_format: SampleFormat::F32, sample_rate: 48_000, channels: 2 };
    let ints = AudioInfo { sample_format: SampleFormat::I16, sample_rate: 48_000, channels: 2 };
    let slow = AudioInfo { sample_format: SampleFormat::F32, sample_rate: 44_100, channels: 2 };
    assert_eq!(audio.route(same), PredecodedRoute::Copy);
    assert_eq!(audio.route(ints), PredecodedRoute::ConvertFormat);
    assert_eq!(audio.route(slow), PredecodedRoute::Resample);
    let tenfold = |sample: u32| sample * 10;
    let held: RefCell<Vec<u32>> = RefCell::new(vec![]);
    let resample = |frame: Option<(usize, Vec<u32>)>| match frame {
        Some((frames, data)) => {
            assert_eq!(frames * 2, data.len());
            held.borrow_mut().extend(data);
            Some(vec![7])
        }
        None => {
            let rest: Vec<u32> = held.borrow_mut().drain(..).collect();
            if rest.is_empty() {
                None
            } else {
                Some(rest)
            }
        }
    };
    let buffer = PrerenderedAudioBuffer::from_predecoded(&audio, same, 0, &tenfold, &resample);
    assert_eq!(buffer.samples, vec![1, 2, 3, 4]);
    assert_eq!((buffer.sample_rate, buffer.channels, buffer.read_position), (48_000, 2, 0));
    let buffer = PrerenderedAudioBuffer::from_predecoded(&audio, ints, 0, &tenfold, &resample);
    assert_eq!(buffer.samples, vec![10, 20, 30, 40]);
    let buffer = PrerenderedAudioBuffer::from_predecoded(&audio, slow, 0, &tenfold, &resample);
    assert_eq!(buffer.samples, vec![7, 1, 2, 3, 4]);
    assert_eq!(buffer.sample_rate, 44_100);
}

#[test]
fn whole_timeline_is_rendered_chunk_by_chunk() {
    let project = two_clips();
    let to_device = |sample: i64| sample as u64;
    let never = |_: Option<(usize, Vec<i64>)>| -> Option<Vec<u64>> {
        panic!("the mix format needs no resampler")
    };
    let buffer = PrerenderedAudioBuffer::new(
        clip_audio(),
        &project,
        AudioRenderer::info(),
        fx_audio(4.5),
        0u64,
        &half,
        &to_device,
        &never,
    );
    assert_eq!(buffer.samples.len(), (96_000 + 72_000 + 11 * 4_096) * 2);
    assert!(buffer.samples[..96_000 * 2].iter().all(|s| *s == 250_000_000));
    assert!(buffer.samples[96_000 * 2..(96_000 + 24_000) * 2].iter().all(|s| *s == 0));
    assert!(buffer.samples[(96_000 + 24_000) * 2..(96_000 + 72_000) * 2]
        .iter()
        .all(|s| *s == 250_000_000));
    assert!(buffer.samples[(96_000 + 72_000) * 2..].iter().all(|s| *s == 0));
    assert_eq!((buffer.read_position, buffer.sample_rate, buffer.channels), (0, 48_000, 2));

    let info = AudioInfo { sample_format: SampleFormat::I16, sample_rate: 24_000, channels: 1 };
    let pending = RefCell::new(0usize);
    let resample = |frame: Option<(usize, Vec<i64>)>| match frame {
        Some((frames, _)) => {
            *pending.borrow_mut() += frames % 2;
            Some(vec![1u64; frames / 2])
        }
        None => {
            let rest = pending.replace(0);
            if rest == 0 {
                None
            } else {
                Some(vec![2u64; rest])
            }
        }
    };
    let buffer = PrerenderedAudioBuffer::new(
        clip_audio(),
        &project,
        info,
        fx_audio(0.1),
        9u64,
        &half,
        &to_device,
        &resample,
    );
    assert_eq!(buffer.samples, vec![1u64; 4_096]);
    assert_eq!((buffer.sample_rate, buffer.channels), (24_000, 1));
}

#[test]
fn predecoded_audio_is_chunked_by_whole_frames() {
    let audio = PredecodedAudio {
        samples: vec![0u8; 4096 * 2 + 5],
        sample_rate: 48_000,
        channels: 2,
        timeline_hash: 0,
    };
    assert_eq!(audio.chunk(0), Some((8_192, 4_096)));
    assert_eq!(audio.chunk(8_192), Some((8_197, 2)));
    assert_eq!(audio.chunk(8_196), None);
    assert_eq!(audio.chunk(8_197), None);
    let none =
        PredecodedAudio { samples: vec![0u8; 4], sample_rate: 48_000, channels: 0, timeline_hash: 0 };
    assert_eq!(none.chunk(0), None);
}

#[test]
fn prerender_job_counts_chunks_and_fills_gaps() {
    let project = two_clips();
    let info = AudioInfo { sample_format: SampleFormat::I16, sample_rate: 24_000, channels: 1 };
    let mut job = PrerenderJob::new(clip_audio(), &project, info, fx_audio(0.2), 0u64);
    assert!(!job.can_bypass_resampler);
    assert_eq!(job.total_source_samples, 9_600);
    assert_eq!(job.output_chunk_samples, 2_048);
    let mut chunks = 0;
    while job.is_rendering() {
        if chunks == 1 {
            job.push_chunk(Some(vec![5, 5]), true);
        } else {
            job.push_chunk(Some(vec![1, 2, 3]), false);
        }
        chunks += 1;
    }
    assert_eq!(chunks, 3);
    job.push_drained(vec![8]);
    let buffer = job.finish();
    assert_eq!(buffer.samples.len(), 3 + 2 + 2_048 + 3 + 1);
    assert_eq!(&buffer.samples[..5], &[1, 2, 3, 5, 5]);
    assert!(buffer.samples[5..5 + 2_048].iter().all(|s| *s == 0));
    assert_eq!(&buffer.samples[5 + 2_048..], &[1, 2, 3, 8]);
    assert_eq!((buffer.sample_rate, buffer.channels), (24_000, 1));

    let mix = AudioRenderer::info();
    let bypass = PrerenderJob::new(clip_audio(), &project, mix, fx_audio(1.0), 0u64);
    assert!(bypass.can_bypass_resampler);
    assert_eq!(bypass.output_chunk_samples, 8_192);
}

#[test]
fn playback_ring_hands_out_the_oldest_samples_first() {
    let project = two_clips();
    let info = AudioInfo { sample_format: SampleFormat::I16, sample_rate: 8_000, channels: 2 };
    let mut buffer = AudioPlaybackBuffer::new(clip_audio(), info, 0);
    assert!(!buffer.buffer_reaching_limit());
    assert!(buffer.push_rendered(Some((1..=10).collect())));
    assert!(!buffer.push_rendered(Some(vec![])));
    assert!(!buffer.push_rendered(None));
    let mut out = vec![99u64; 4];
    let silent = |_: Option<(usize, Vec<i64>)>| None;
    buffer.fill(&mut out, &project, 0, &half, &silent);
    assert_eq!(out, vec![1, 2, 3, 4]);
    let mut out = vec![99u64; 8];
    buffer.fill(&mut out, &project, 0, &half, &silent);
    assert_eq!(out, vec![5, 6, 7, 8, 9, 10, 0, 0]);
}

#[test]
fn playback_ring_prefills_up_to_the_headroom() {
    let project = two_clips();
    let info = AudioInfo { sample_format: SampleFormat::I16, sample_rate: 8_000, channels: 2 };
    let mut buffer = AudioPlaybackBuffer::new(clip_audio(), info, 0);
    buffer.set_playhead(0, &project);
    buffer.prefill(&project, 5_000, &half, &as_words);
    let mut out = vec![0u64; 6_144];
    buffer.fill(&mut out, &project, 0, &half, &as_words);
    assert!(out.iter().all(|s| *s == 250_000_000));
    let mut out = vec![1u64; 1];
    buffer.fill(&mut out, &project, 0, &half, &as_words);
    assert_eq!(out, vec![0]);
    assert_eq!(buffer.current_playhead(), fx_audio(3.0 * 1024.0 / 48_000.0));
}

#[test]
fn playback_ring_stops_filling_near_its_capacity() {
    let project = two_clips();
    let info = AudioInfo { sample_format: SampleFormat::U8, sample_rate: 8_000, channels: 1 };
    let mut buffer = AudioPlaybackBuffer::new(clip_audio(), info, 128);
    buffer.prefill(&project, 100_000, &half, &as_words);
    assert!(buffer.buffer_reaching_limit());
    let mut out = vec![0u64; 8_000];
    buffer.fill(&mut out, &project, 0, &half, &as_words);
    assert_eq!(out.iter().filter(|s| **s == 250_000_000).count(), 6_144);
    assert_eq!(out.iter().filter(|s| **s == 128).count(), 8_000 - 6_144);
}

#[test]
fn audible_playhead_trails_by_buffer_and_latency() {
    let project = two_clips();
    let info = AudioInfo { sample_format: SampleFormat::I16, sample_rate: 8_000, channels: 2 };
    let mut buffer = AudioPlaybackBuffer::new(clip_audio(), info, 0);
    buffer.set_playhead(fx_audio(2.0), &project);
    assert!(buffer.push_rendered(Some(vec![3; 8_000])));
    assert_eq!(buffer.current_audible_playhead(8_000, fx_audio(0.25)), fx_audio(1.25));
    assert_eq!(buffer.current_audible_playhead(8_000, fx_audio(-5.0)), fx_audio(1.5));
    assert_eq!(buffer.current_audible_playhead(1_000, fx_audio(0.0)), 0);
    buffer.set_playhead(fx_audio(1.0), &project);
    assert_eq!(buffer.current_audible_playhead(8_000, 0), fx_audio(1.0));
}

#[test]
fn timeline_digest_follows_what_is_heard() {
    let project = two_clips();
    let digest = compute_timeline_hash(&project);
    assert_eq!(digest, compute_timeline_hash(&two_clips()));
    let mut muted = two_clips();
    muted.audio.mute = true;
    assert_ne!(digest, compute_timeline_hash(&muted));
    let mut shifted = two_clips();
    shifted.clips[0].offsets.mic += 1;
    assert_ne!(digest, compute_timeline_hash(&shifted));
    let mut trimmed = two_clips();
    trimmed.timeline.as_mut().unwrap().segments.pop();
    assert_ne!(digest, compute_timeline_hash(&trimmed));
    let audio = PredecodedAudio::<u8> {
        samples: vec![],
        sample_rate: 48_000,
        channels: 2,
        timeline_hash: digest,
    };
    assert!(audio.is_current(&project));
    assert!(!audio.is_current(&muted));

    let mut empty = two_clips();
    empty.timeline = None;
    empty.clips.clear();
    let mut expected = 0xcbf2_9ce4_8422_2325u64;
    for word in [0u64, 0, 0, (-6_000_000_000i64) as u64, 1, (-40_000_000_000i64) as u64] {
        expected = (expected ^ word).wrapping_mul(0x0000_0100_0000_01b3);
    }
    assert_eq!(compute_timeline_hash(&empty), expected);
}

#[test]
fn a_positive_offset_lets_the_track_start_later() {
    let mut project = project_with(vec![TimelineSegment {
        recording_clip: 0,
        start: 0,
        end: fx_audio(1.0),
        timescale: fx_audio(1.0),
    }]);
    project.clips = vec![ClipConfiguration {
        index: 0,
        offsets: ClipOffsets { camera: 0, mic: 41_667, system_audio: 0 },
    }];
    project.audio.mic_stereo_mode = StereoMode::Stereo;
    let data = Arc::new(AudioData { samples: (1..=6).map(|s| s * 1_000).collect() });
    let clips = vec![AudioSegment { tracks: vec![AudioSegmentTrack::new(data, TrackKind::Mic)] }];
    let mut renderer = AudioRenderer::new(clips);
    renderer.set_playhead(0, &project);
    let one = |_db: i64| 1_000_000_000;
    let (count, data) = renderer.render_frame_raw(100, &project, &one).unwrap();
    assert_eq!(count, 5);
    assert_eq!(data, vec![0, 0, 0, 0, 1_000, 2_000, 3_000, 4_000, 5_000, 6_000]);
    assert!(renderer.render_frame_raw(100, &project, &one).is_none());

    project.clips[0].offsets.mic = -41_667;
    renderer.set_playhead(0, &project);
    let (count, data) = renderer.render_frame_raw(100, &project, &one).unwrap();
    assert_eq!(count, 1);
    assert_eq!(data, vec![5_000, 6_000]);
}

#[test]
fn device_bytes_are_framed_into_words() {
    assert_eq!(words_from_bytes(&[1, 2, 3, 4], 2), vec![0x0201, 0x0403]);
    assert_eq!(words_from_bytes(&[1, 2, 3, 4, 5], 4), vec![0x0403_0201, 5]);
    assert_eq!(words_from_bytes(&[9, 8], 1), vec![9, 8]);
    assert_eq!(words_from_bytes(&[0xff; 8], 8), vec![u64::MAX]);
    assert_eq!(words_from_bytes(&[], 4), Vec::<u64>::new());
    assert_eq!(equilibrium(SampleFormat::U8), 128);
    assert_eq!(equilibrium(SampleFormat::F32), 0);
}

#[test]
fn ring_has_a_second_of_places() {
    let info = AudioInfo { sample_format: SampleFormat::I16, sample_rate: 8_000, channels: 12 };
    assert_eq!(ring_places_for(info), Some(8_000 * 8 * 2));
    let none = AudioInfo { sample_format: SampleFormat::I16, sample_rate: 8_000, channels: 0 };
    assert_eq!(ring_places_for(none), None);
    let mute = AudioInfo { sample_format: SampleFormat::F64, sample_rate: 0, channels: 2 };
    assert_eq!(ring_places_for(mute), None);
}

#[test]
fn rendering_no_time_ahead_gives_an_empty_buffer() {
    let project = two_clips();
    let to_device = |sample: i64| sample as u64;
    let never = |_: Option<(usize, Vec<i64>)>| -> Option<Vec<u64>> {
        panic!("the mix format needs no resampler")
    };
    let buffer = PrerenderedAudioBuffer::new(
        clip_audio(),
        &project,
        AudioRenderer::info(),
        0,
        9u64,
        &half,
        &to_device,
        &never,
    );
    assert!(buffer.samples.is_empty());
    assert_eq!((buffer.read_position, buffer.equilibrium), (0, 9));
}

#[test]
fn a_silent_chunk_is_a_chunk_of_the_silence_sample() {
    let project = project_with(vec![TimelineSegment {
        recording_clip: 0,
        start: 0,
        end: fx_audio(1.0),
        timescale: fx_audio(2.0),
    }]);
    let to_device = |sample: i64| sample as u64;
    let never = |_: Option<(usize, Vec<i64>)>| -> Option<Vec<u64>> {
        panic!("the mix format needs no resampler")
    };
    let buffer = PrerenderedAudioBuffer::new(
        clip_audio(),
        &project,
        AudioRenderer::info(),
        fx_audio(0.05),
        9u64,
        &half,
        &to_device,
        &never,
    );
    assert_eq!(buffer.samples, vec![9u64; 8_192]);
}

#[test]
fn the_resampler_is_drained_behind_the_last_chunk() {
    let project = two_clips();
    let info = AudioInfo { sample_format: SampleFormat::I16, sample_rate: 24_000, channels: 1 };
    let to_device = |sample: i64| sample as u64;
    let left = RefCell::new(2u64);
    let resample = |frame: Option<(usize, Vec<i64>)>| match frame {
        Some((frames, data)) => {
            assert_eq!(frames * 2, data.len());
            Some(vec![1u64; 3])
        }
        None => {
            let n = left.replace_with(|n| n.saturating_sub(1));
            if n == 0 {
                Some(vec![])
            } else {
                Some(vec![10 + n; 2])
            }
        }
    };
    let buffer = PrerenderedAudioBuffer::new(
        clip_audio(),
        &project,
        info,
        fx_audio(0.1),
        9u64,
        &half,
        &to_device,
        &resample,
    );
    assert_eq!(buffer.samples, vec![1, 1, 1, 1, 1, 1, 12, 12, 11, 11]);
}

#[test]
fn predecoded_audio_is_resampled_chunk_by_chunk() {
    let audio = PredecodedAudio {
        samples: (0..(4_096 * 2 + 6) as u32).collect::<Vec<u32>>(),
        sample_rate: 48_000,
        channels: 2,
        timeline_hash: 0,
    };
    let slow = AudioInfo { sample_format: SampleFormat::F32, sample_rate: 44_100, channels: 2 };
    let keep = |sample: u32| sample;
    let flushes = RefCell::new(1u32);
    let resample = |frame: Option<(usize, Vec<u32>)>| match frame {
        Some((frames, data)) => Some(vec![frames as u32, data[0], *data.last().unwrap()]),
        None => {
            if flushes.replace(0) == 1 {
                Some(vec![77])
            } else {
                None
            }
        }
    };
    let buffer = PrerenderedAudioBuffer::from_predecoded(&audio, slow, 0, &keep, &resample);
    assert_eq!(buffer.samples, vec![4_096, 0, 8_191, 3, 8_192, 8_197, 77]);
}

#[test]
fn moving_the_playback_playhead_places_the_cursor() {
    let project = two_clips();
    let info = AudioInfo { sample_format: SampleFormat::I16, sample_rate: 8_000, channels: 2 };
    let mut buffer = AudioPlaybackBuffer::new(clip_audio(), info, 0);
    assert!(buffer.push_rendered(Some(vec![1, 2, 3])));
    buffer.set_playhead(fx_audio(2.5), &project);
    assert_eq!(buffer.frame_buffer.elapsed_samples, 120_000);
    assert_eq!(buffer.frame_buffer.cursor.clip_index, 1);
    assert_eq!(buffer.frame_buffer.cursor.samples, 24_000);
    assert_eq!(buffer.frame_buffer.cursor.timescale, fx_audio(1.0));
    buffer.set_playhead(fx_audio(9.0), &project);
    assert_eq!(buffer.frame_buffer.cursor.clip_index, 0);
    assert_eq!(buffer.frame_buffer.cursor.samples, 432_000);
    let job = PrerenderJob::new(clip_audio(), &project, info, fx_audio(1.0), 0u64);
    assert_eq!(job.renderer.cursor.clip_index, 0);
    assert_eq!(job.renderer.cursor.samples, 0);
    assert_eq!(job.renderer.elapsed_samples, 0);
}

#[test]
fn each_rendered_chunk_moves_the_renderer_on() {
    let project = two_clips();
    let info = AudioInfo { sample_format: SampleFormat::I16, sample_rate: 8_000, channels: 2 };
    let mut buffer = AudioPlaybackBuffer::new(clip_audio(), info, 0);
    buffer.set_playhead(fx_audio(1.0), &project);
    assert!(buffer.render_chunk(&project, &half, &as_words));
    assert_eq!(buffer.frame_buffer.elapsed_samples, 48_000 + 1_024);
    assert_eq!(buffer.frame_buffer.cursor.samples, 48_000 + 1_024);
    let dry = |_: Option<(usize, Vec<i64>)>| -> Option<Vec<u64>> { None };
    assert!(!buffer.render_chunk(&project, &half, &dry));
    assert_eq!(buffer.frame_buffer.elapsed_samples, 48_000 + 2_048);
    buffer.prefill(&project, 4_000, &half, &as_words);
    assert_eq!(buffer.frame_buffer.elapsed_samples, 48_000 + 3_072);
    let mut out = vec![0u64; 10];
    buffer.fill(&mut out, &project, 6_000, &half, &as_words);
    assert_eq!(buffer.frame_buffer.elapsed_samples, 48_000 + 4 * 1_024);
    buffer.prefill(&project, 0, &half, &as_words);
    assert_eq!(buffer.frame_buffer.elapsed_samples, 48_000 + 4 * 1_024);
}
