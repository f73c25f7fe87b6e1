//! Scene interpolation: which scene modes blend at a time of the edited
//! timeline, how far the blend has come, and the values that follow from it.

use vstd::prelude::*;
use crate::fixed::{
    lemma_lerp_at_one, lemma_lerp_at_zero, lerp, lerp_spec, max, max_spec, min, min_spec, minus,
    minus_spec, ratio, ratio_spec, times, times_spec, Fixed, ONE,
};
use crate::project::{SceneMode, SceneSegment};

verus! {

/// The last 0.3 s of a scene segment, in which its mode blends into the next.
pub const SCENE_TRANSITION_DURATION: Fixed = 300_000_000;

/// Same-mode segments less than 0.5 s apart are joined without a blend.
pub const MIN_GAP_FOR_TRANSITION: Fixed = 500_000_000;

/// Segments at most 0.01 s apart count as back to back.
pub const DIRECT_CUT_GAP: Fixed = 10_000_000;

/// Opacities at or below 0.01 are not worth rendering.
pub const RENDER_THRESHOLD: Fixed = 10_000_000;

/// One half.
pub const HALF: Fixed = 500_000_000;

/// The zoom of the full-screen camera at the far end of its blend: 1.1.
pub const CAMERA_ONLY_ZOOM: Fixed = 1_100_000_000;

/// The regular camera fades one and a half times as fast as the full-screen
/// camera comes or goes.
pub const FAST_FADE_FACTOR: Fixed = 1_500_000_000;

/// Whether `time` lies in `[start, end)` of the segment.
pub open spec fn covers(segment: SceneSegment, time: int) -> bool {
    segment.start <= time && time < segment.end
}

/// The first index from `from` on whose segment covers `time`.
pub open spec fn covering_from(segments: Seq<SceneSegment>, time: int, from: int) -> Option<int>
    decreases segments.len() - from,
{
    if from < 0 || from >= segments.len() {
        None
    } else if covers(segments[from], time) {
        Some(from)
    } else {
        covering_from(segments, time, from + 1)
    }
}

/// The last index below `below` whose segment has ended by `time`.
pub open spec fn ended_below(segments: Seq<SceneSegment>, time: int, below: int) -> Option<int>
    decreases below,
{
    if below <= 0 || below > segments.len() {
        None
    } else if segments[below - 1].end <= time {
        Some(below - 1)
    } else {
        ended_below(segments, time, below - 1)
    }
}

/// The first index from `from` on whose segment starts after `time`.
pub open spec fn starting_from(segments: Seq<SceneSegment>, time: int, from: int) -> Option<int>
    decreases segments.len() - from,
{
    if from < 0 || from >= segments.len() {
        None
    } else if segments[from].start > time {
        Some(from)
    } else {
        starting_from(segments, time, from + 1)
    }
}

/// The segment that `time` lies in: the first that covers it.
pub open spec fn current_segment(segments: Seq<SceneSegment>, time: int) -> Option<SceneSegment> {
    match covering_from(segments, time, 0) {
        Some(i) => Some(segments[i]),
        None => None,
    }
}

/// The segment before `time`: the one in front of the current segment, or,
/// between segments, the last that has ended.
pub open spec fn previous_segment(segments: Seq<SceneSegment>, time: int) -> Option<SceneSegment> {
    match covering_from(segments, time, 0) {
        Some(i) => if i > 0 {
            Some(segments[i - 1])
        } else {
            None
        },
        None => match ended_below(segments, time, segments.len() as int) {
            Some(i) => Some(segments[i]),
            None => None,
        },
    }
}

/// The segment after `time`: the first that starts later.
pub open spec fn following_segment(segments: Seq<SceneSegment>, time: int) -> Option<SceneSegment> {
    match starting_from(segments, time, 0) {
        Some(i) => Some(segments[i]),
        None => None,
    }
}

/// A position on the timeline together with the scene segments around it.
#[derive(Clone, Copy, Debug)]
pub struct SceneSegmentsCursor<'a> {
    time: Fixed,
    segment: Option<SceneSegment>,
    prev_segment: Option<SceneSegment>,
    segments: &'a [SceneSegment],
}

impl<'a> SceneSegmentsCursor<'a> {
    /// The time the cursor stands at.
    pub closed spec fn time(self) -> Fixed {
        self.time
    }

    /// The segments the cursor looks at.
    pub closed spec fn segments(self) -> Seq<SceneSegment> {
        self.segments@
    }

    #[verifier::type_invariant]
    closed spec fn inv(self) -> bool {
        &&& self.segment == current_segment(self.segments@, self.time as int)
        &&& self.prev_segment == previous_segment(self.segments@, self.time as int)
    }

    /// The segment the cursor stands in.
    pub closed spec fn segment(self) -> Option<SceneSegment> {
        self.segment
    }

    /// The segment before the cursor.
    pub closed spec fn prev_segment(self) -> Option<SceneSegment> {
        self.prev_segment
    }

    /// Looks up `time` among `segments`: the first segment that covers it,
    /// and the segment in front of that one or, between segments, the last
    /// that has ended.
    pub fn new(time: Fixed, segments: &'a [SceneSegment]) -> (cursor: Self)
        ensures
            cursor.time() == time,
            cursor.segments() == segments@,
            cursor.segment() == current_segment(segments@, time as int),
            cursor.prev_segment() == previous_segment(segments@, time as int),
    {
        let n: usize = segments.len();
        let mut i: usize = 0;
        while i < n
            invariant
                n == segments@.len(),
                i <= n,
                covering_from(segments@, time as int, 0) == covering_from(
                    segments@,
                    time as int,
                    i as int,
                ),
            decreases n - i,
        {
            if time >= segments[i].start && time < segments[i].end {
                return SceneSegmentsCursor {
                    time,
                    segment: Some(segments[i]),
                    prev_segment: if i > 0 {
                        Some(segments[i - 1])
                    } else {
                        None
                    },
                    segments,
                };
            }
            i = i + 1;
        }
        let mut j: usize = n;
        while j > 0
            invariant
                n == segments@.len(),
                j <= n,
                covering_from(segments@, time as int, 0) is None,
                ended_below(segments@, time as int, n as int) == ended_below(
                    segments@,
                    time as int,
                    j as int,
                ),
            decreases j,
        {
            if segments[j - 1].end <= time {
                return SceneSegmentsCursor {
                    time,
                    segment: None,
                    prev_segment: Some(segments[j - 1]),
                    segments,
                };
            }
            j = j - 1;
        }
        SceneSegmentsCursor { time, segment: None, prev_segment: None, segments }
    }

    /// The first segment that starts after the cursor's time.
    pub fn next_segment(&self) -> (next: Option<&'a SceneSegment>)
        ensures
            match next {
                Some(segment) => Some(*segment) == following_segment(
                    self.segments(),
                    self.time() as int,
                ),
                None => following_segment(self.segments(), self.time() as int) is None,
            },
    {
        let n: usize = self.segments.len();
        let mut i: usize = 0;
        while i < n
            invariant
                n == self.segments@.len(),
                i <= n,
                starting_from(self.segments@, self.time as int, 0) == starting_from(
                    self.segments@,
                    self.time as int,
                    i as int,
                ),
            decreases n - i,
        {
            if self.segments[i].start > self.time {
                return Some(&self.segments[i]);
            }
            i = i + 1;
        }
        None
    }
}

/// Which modes blend, and how far the blend has come.
#[derive(Clone, Copy, Debug, PartialEq, Eq, Structural)]
pub struct SceneTransition {
    pub from_mode: SceneMode,
    pub to_mode: SceneMode,
    /// The share of the transition window that has passed, before easing;
    /// `None` where no blend is under way.
    pub progress: Option<Fixed>,
}

/// A scene that rests in `mode`.
pub open spec fn resting(mode: SceneMode) -> SceneTransition {
    SceneTransition { from_mode: mode, to_mode: mode, progress: None }
}

/// The share of the window that has passed since `window_start`.
pub open spec fn window_share(time: int, window_start: int) -> int {
    ratio_spec(minus_spec(time, window_start), SCENE_TRANSITION_DURATION as int)
}

/// The blend inside `segment`, with `next` the first segment that starts
/// after `time`: none before the last 0.3 s; then towards the next segment's
/// mode where that follows within 0.01 s, towards the default mode
/// otherwise, and none at all towards a segment of the same mode that
/// follows within 0.5 s.
pub open spec fn transition_inside(
    segment: SceneSegment,
    next: Option<SceneSegment>,
    time: int,
) -> SceneTransition {
    let window_start = minus_spec(segment.end as int, SCENE_TRANSITION_DURATION as int);
    let share = min_spec(window_share(time, window_start), ONE as int);
    if time >= window_start && time < segment.end {
        match next {
            Some(next_segment) => {
                let gap = minus_spec(next_segment.start as int, segment.end as int);
                if gap < MIN_GAP_FOR_TRANSITION && segment.mode == next_segment.mode {
                    resting(segment.mode)
                } else if gap > DIRECT_CUT_GAP {
                    SceneTransition {
                        from_mode: segment.mode,
                        to_mode: SceneMode::Default,
                        progress: Some(share as Fixed),
                    }
                } else {
                    SceneTransition {
                        from_mode: segment.mode,
                        to_mode: next_segment.mode,
                        progress: Some(share as Fixed),
                    }
                }
            },
            None => SceneTransition {
                from_mode: segment.mode,
                to_mode: SceneMode::Default,
                progress: Some(share as Fixed),
            },
        }
    } else {
        resting(segment.mode)
    }
}

/// The blend between segments, `next` being the first segment that starts
/// after `time` and `prev` the last that has ended: in the 0.3 s before
/// `next` the scene blends into its mode, from the previous segment's mode
/// where the two are at most 0.01 s apart and from the default mode
/// otherwise; before that it rests in the default mode. Between two
/// segments of one mode less than 0.5 s apart it rests in that mode.
pub open spec fn transition_between(
    prev: Option<SceneSegment>,
    next: SceneSegment,
    time: int,
) -> SceneTransition {
    let window_start = minus_spec(next.start as int, SCENE_TRANSITION_DURATION as int);
    let share = window_share(time, window_start);
    match prev {
        Some(prev_segment) => {
            let gap = minus_spec(next.start as int, prev_segment.end as int);
            if gap < MIN_GAP_FOR_TRANSITION && prev_segment.mode == next.mode {
                resting(prev_segment.mode)
            } else if time >= window_start {
                SceneTransition {
                    from_mode: if gap > DIRECT_CUT_GAP {
                        SceneMode::Default
                    } else {
                        prev_segment.mode
                    },
                    to_mode: next.mode,
                    progress: Some(share as Fixed),
                }
            } else {
                resting(SceneMode::Default)
            }
        },
        None => if time >= window_start {
            SceneTransition {
                from_mode: SceneMode::Default,
                to_mode: next.mode,
                progress: Some(share as Fixed),
            }
        } else {
            resting(SceneMode::Default)
        },
    }
}

/// The blend at `time` among `segments`.
pub open spec fn transition_at(segments: Seq<SceneSegment>, time: int) -> SceneTransition {
    match current_segment(segments, time) {
        Some(segment) => transition_inside(segment, following_segment(segments, time), time),
        None => match following_segment(segments, time) {
            Some(next) => transition_between(previous_segment(segments, time), next, time),
            None => resting(SceneMode::Default),
        },
    }
}

/// Camera opacity, screen opacity and camera scale of a mode at rest.
pub open spec fn scene_values(mode: SceneMode) -> (Fixed, Fixed, Fixed) {
    match mode {
        SceneMode::HideCamera => (0, ONE, ONE),
        _ => (ONE, ONE, ONE),
    }
}

/// The blend at the cursor's position.
pub fn transition(cursor: &SceneSegmentsCursor) -> (found: SceneTransition)
    ensures
        found == transition_at(cursor.segments(), cursor.time() as int),
{
    proof {
        use_type_invariant(cursor);
    }
    let time: Fixed = cursor.time;
    let next: Option<&SceneSegment> = cursor.next_segment();
    match cursor.segment {
        Some(segment) => {
            let window_start: Fixed = minus(segment.end, SCENE_TRANSITION_DURATION);
            if time >= window_start && time < segment.end {
                let share: Fixed = min(
                    ratio(minus(time, window_start), SCENE_TRANSITION_DURATION),
                    ONE,
                );
                match next {
                    Some(next_segment) => {
                        let gap: Fixed = minus(next_segment.start, segment.end);
                        if gap < MIN_GAP_FOR_TRANSITION && segment.mode == next_segment.mode {
                            SceneTransition {
                                from_mode: segment.mode,
                                to_mode: segment.mode,
                                progress: None,
                            }
                        } else if gap > DIRECT_CUT_GAP {
                            SceneTransition {
                                from_mode: segment.mode,
                                to_mode: SceneMode::Default,
                                progress: Some(share),
                            }
                        } else {
                            SceneTransition {
                                from_mode: segment.mode,
                                to_mode: next_segment.mode,
                                progress: Some(share),
                            }
                        }
                    },
                    None => SceneTransition {
                        from_mode: segment.mode,
                        to_mode: SceneMode::Default,
                        progress: Some(share),
                    },
                }
            } else {
                SceneTransition { from_mode: segment.mode, to_mode: segment.mode, progress: None }
            }
        },
        None => match next {
            Some(next_segment) => {
                let window_start: Fixed = minus(next_segment.start, SCENE_TRANSITION_DURATION);
                let share: Fixed = ratio(minus(time, window_start), SCENE_TRANSITION_DURATION);
                match cursor.prev_segment {
                    Some(prev_segment) => {
                        let gap: Fixed = minus(next_segment.start, prev_segment.end);
                        if gap < MIN_GAP_FOR_TRANSITION && prev_segment.mode == next_segment.mode {
                            SceneTransition {
                                from_mode: prev_segment.mode,
                                to_mode: prev_segment.mode,
                                progress: None,
                            }
                        } else if time >= window_start {
                            SceneTransition {
                                from_mode: if gap > DIRECT_CUT_GAP {
                                    SceneMode::Default
                                } else {
                                    prev_segment.mode
                                },
                                to_mode: next_segment.mode,
                                progress: Some(share),
                            }
                        } else {
                            SceneTransition {
                                from_mode: SceneMode::Default,
                                to_mode: SceneMode::Default,
                                progress: None,
                            }
                        }
                    },
                    None => if time >= window_start {
                        SceneTransition {
                            from_mode: SceneMode::Default,
                            to_mode: next_segment.mode,
                            progress: Some(share),
                        }
                    } else {
                        SceneTransition {
                            from_mode: SceneMode::Default,
                            to_mode: SceneMode::Default,
                            progress: None,
                        }
                    },
                }
            },
            None => SceneTransition {
                from_mode: SceneMode::Default,
                to_mode: SceneMode::Default,
                progress: None,
            },
        },
    }
}

/// The composition of one frame: the modes that blend and the values that
/// the blend gives, all in fixed point.
#[derive(Clone, Copy, Debug, PartialEq, Eq, Structural)]
pub struct InterpolatedScene {
    pub camera_opacity: Fixed,
    pub screen_opacity: Fixed,
    pub camera_scale: Fixed,
    pub scene_mode: SceneMode,
    pub transition_progress: Fixed,
    pub from_mode: SceneMode,
    pub to_mode: SceneMode,
    pub screen_blur: Fixed,
    pub camera_only_zoom: Fixed,
    pub camera_only_blur: Fixed,
}

/// Whether the mode shows screen and camera side by side.
pub open spec fn is_split(mode: SceneMode) -> bool {
    mode == SceneMode::SplitScreenLeft || mode == SceneMode::SplitScreenRight
}

/// The horizontal place of the camera in a split layout.
pub open spec fn split_camera_anchor(mode: SceneMode) -> int {
    if mode == SceneMode::SplitScreenRight {
        HALF as int
    } else {
        0
    }
}

/// The horizontal place of the screen in a split layout.
pub open spec fn split_display_anchor(mode: SceneMode) -> int {
    if mode == SceneMode::SplitScreenLeft {
        HALF as int
    } else {
        0
    }
}

/// One of four values, by which ends of a blend are in a mode: `leaving`
/// where only the mode that the blend comes from is, `entering` where only
/// the mode that it goes to is, `within` where both are, `outside` where
/// neither is.
pub open spec fn by_membership(
    from_in: bool,
    to_in: bool,
    leaving: int,
    entering: int,
    within: int,
    outside: int,
) -> int {
    if from_in && !to_in {
        leaving
    } else if !from_in && to_in {
        entering
    } else if from_in && to_in {
        within
    } else {
        outside
    }
}

fn mode_is_split(mode: SceneMode) -> (r: bool)
    ensures
        r == is_split(mode),
{
    mode == SceneMode::SplitScreenLeft || mode == SceneMode::SplitScreenRight
}

impl InterpolatedScene {
    /// The scene that blends `from` into `to` at the eased progress
    /// `progress`: opacities and scale interpolate between the two modes'
    /// values at rest; the screen is blurred and the full-screen camera is
    /// zoomed by 1.1 and blurred at the far end of a blend with the
    /// camera-only mode; past half way the scene counts as `to`.
    pub open spec fn blend(from: SceneMode, to: SceneMode, progress: Fixed) -> InterpolatedScene {
        let start = scene_values(from);
        let end = scene_values(to);
        let from_camera = from == SceneMode::CameraOnly;
        let to_camera = to == SceneMode::CameraOnly;
        let falling = lerp_spec(ONE as int, 0, progress as int);
        InterpolatedScene {
            camera_opacity: lerp_spec(start.0 as int, end.0 as int, progress as int) as Fixed,
            screen_opacity: lerp_spec(start.1 as int, end.1 as int, progress as int) as Fixed,
            camera_scale: lerp_spec(start.2 as int, end.2 as int, progress as int) as Fixed,
            scene_mode: if progress > HALF {
                to
            } else {
                from
            },
            transition_progress: progress,
            from_mode: from,
            to_mode: to,
            screen_blur: by_membership(from_camera, to_camera, falling, progress as int, 0, 0) as Fixed,
            camera_only_zoom: by_membership(
                from_camera,
                to_camera,
                lerp_spec(ONE as int, CAMERA_ONLY_ZOOM as int, progress as int),
                lerp_spec(CAMERA_ONLY_ZOOM as int, ONE as int, progress as int),
                ONE as int,
                ONE as int,
            ) as Fixed,
            camera_only_blur: by_membership(from_camera, to_camera, progress as int, falling, 0, 0) as Fixed,
        }
    }

    /// The scene at rest in one mode.
    pub fn from_single_mode(scene_mode: SceneMode) -> (scene: Self)
        ensures
            scene == (InterpolatedScene {
                camera_opacity: scene_values(scene_mode).0,
                screen_opacity: scene_values(scene_mode).1,
                camera_scale: scene_values(scene_mode).2,
                scene_mode,
                transition_progress: ONE,
                from_mode: scene_mode,
                to_mode: scene_mode,
                screen_blur: 0,
                camera_only_zoom: ONE,
                camera_only_blur: 0,
            }),
    {
        let (camera_opacity, screen_opacity, camera_scale) = Self::get_scene_values(&scene_mode);
        InterpolatedScene {
            camera_opacity,
            screen_opacity,
            camera_scale,
            scene_mode,
            transition_progress: ONE,
            from_mode: scene_mode,
            to_mode: scene_mode,
            screen_blur: 0,
            camera_only_zoom: ONE,
            camera_only_blur: 0,
        }
    }

    /// The scene for a blend whose eased progress is known.
    pub fn from_transition(from: SceneMode, to: SceneMode, progress: Fixed) -> (scene: Self)
        ensures
            scene == Self::blend(from, to, progress),
    {
        let (start_camera_opacity, start_screen_opacity, start_camera_scale) =
            Self::get_scene_values(&from);
        let (end_camera_opacity, end_screen_opacity, end_camera_scale) = Self::get_scene_values(
            &to,
        );
        let from_camera: bool = from == SceneMode::CameraOnly;
        let to_camera: bool = to == SceneMode::CameraOnly;
        let screen_blur: Fixed = if from_camera && !to_camera {
            lerp(ONE, 0, progress)
        } else if !from_camera && to_camera {
            progress
        } else {
            0
        };
        let camera_only_zoom: Fixed = if to_camera && !from_camera {
            lerp(CAMERA_ONLY_ZOOM, ONE, progress)
        } else if from_camera && !to_camera {
            lerp(ONE, CAMERA_ONLY_ZOOM, progress)
        } else {
            ONE
        };
        let camera_only_blur: Fixed = if to_camera && !from_camera {
            lerp(ONE, 0, progress)
        } else if from_camera && !to_camera {
            progress
        } else {
            0
        };
        InterpolatedScene {
            camera_opacity: lerp(start_camera_opacity, end_camera_opacity, progress),
            screen_opacity: lerp(start_screen_opacity, end_screen_opacity, progress),
            camera_scale: lerp(start_camera_scale, end_camera_scale, progress),
            scene_mode: if progress > HALF {
                to
            } else {
                from
            },
            transition_progress: progress,
            from_mode: from,
            to_mode: to,
            screen_blur,
            camera_only_zoom,
            camera_only_blur,
        }
    }

    /// The scene at the cursor's position. Where a blend is under way its
    /// progress is eased by `ease`; a scene at rest has progress one.
    pub fn new<F: Fn(Fixed) -> Fixed>(cursor: SceneSegmentsCursor, ease: F) -> (scene: Self)
        requires
            forall|share: Fixed| ease.requires((share,)),
        ensures
            ({
                let found = transition_at(cursor.segments(), cursor.time() as int);
                match found.progress {
                    Some(share) => exists|eased: Fixed|
                        ease.ensures((share,), eased) && scene == Self::blend(
                            found.from_mode,
                            found.to_mode,
                            eased,
                        ),
                    None => scene == Self::blend(found.from_mode, found.to_mode, ONE),
                }
            }),
    {
        let found: SceneTransition = transition(&cursor);
        match found.progress {
            Some(share) => {
                let eased: Fixed = ease(share);
                Self::from_transition(found.from_mode, found.to_mode, eased)
            },
            None => Self::from_transition(found.from_mode, found.to_mode, ONE),
        }
    }

    /// Camera opacity, screen opacity and camera scale of a mode at rest.
    pub fn get_scene_values(mode: &SceneMode) -> (values: (Fixed, Fixed, Fixed))
        ensures
            values == scene_values(*mode),
    {
        match mode {
            SceneMode::Default => (ONE, ONE, ONE),
            SceneMode::CameraOnly => (ONE, ONE, ONE),
            SceneMode::HideCamera => (0, ONE, ONE),
            SceneMode::SplitScreenLeft => (ONE, ONE, ONE),
            SceneMode::SplitScreenRight => (ONE, ONE, ONE),
        }
    }

    /// Whether the camera is visible enough to be drawn.
    pub fn should_render_camera(&self) -> (r: bool)
        ensures
            r == (self.camera_opacity > RENDER_THRESHOLD),
    {
        self.camera_opacity > RENDER_THRESHOLD
    }

    /// Whether the screen is visible enough to be drawn, sharp or blurred.
    pub fn should_render_screen(&self) -> (r: bool)
        ensures
            r == (self.screen_opacity > RENDER_THRESHOLD || self.screen_blur > RENDER_THRESHOLD),
    {
        self.screen_opacity > RENDER_THRESHOLD || self.screen_blur > RENDER_THRESHOLD
    }

    /// Whether the blend comes from or goes to the camera-only mode.
    pub fn is_transitioning_camera_only(&self) -> (r: bool)
        ensures
            r == (self.from_mode == SceneMode::CameraOnly || self.to_mode
                == SceneMode::CameraOnly),
    {
        self.from_mode == SceneMode::CameraOnly || self.to_mode == SceneMode::CameraOnly
    }

    /// Whether the scene counts as a split layout.
    pub fn is_split_screen(&self) -> (r: bool)
        ensures
            r == is_split(self.scene_mode),
    {
        mode_is_split(self.scene_mode)
    }

    /// Whether the blend comes from or goes to a split layout.
    pub fn is_transitioning_split_screen(&self) -> (r: bool)
        ensures
            r == (is_split(self.from_mode) || is_split(self.to_mode)),
    {
        mode_is_split(self.from_mode) || mode_is_split(self.to_mode)
    }

    /// Where the camera stands in a split layout: 0.5 on the right, else 0,
    /// interpolated between the two modes.
    pub fn split_camera_x_ratio(&self) -> (r: Fixed)
        ensures
            r as int == lerp_spec(
                split_camera_anchor(self.from_mode),
                split_camera_anchor(self.to_mode),
                self.transition_progress as int,
            ),
    {
        let start_x: Fixed = match self.from_mode {
            SceneMode::SplitScreenLeft => 0,
            SceneMode::SplitScreenRight => HALF,
            _ => 0,
        };
        let end_x: Fixed = match self.to_mode {
            SceneMode::SplitScreenLeft => 0,
            SceneMode::SplitScreenRight => HALF,
            _ => 0,
        };
        lerp(start_x, end_x, self.transition_progress)
    }

    /// Where the screen stands in a split layout: 0.5 when the camera is on
    /// the left, else 0, interpolated between the two modes.
    pub fn split_display_x_ratio(&self) -> (r: Fixed)
        ensures
            r as int == lerp_spec(
                split_display_anchor(self.from_mode),
                split_display_anchor(self.to_mode),
                self.transition_progress as int,
            ),
    {
        let start_x: Fixed = match self.from_mode {
            SceneMode::SplitScreenLeft => HALF,
            SceneMode::SplitScreenRight => 0,
            _ => 0,
        };
        let end_x: Fixed = match self.to_mode {
            SceneMode::SplitScreenLeft => HALF,
            SceneMode::SplitScreenRight => 0,
            _ => 0,
        };
        lerp(start_x, end_x, self.transition_progress)
    }

    /// The opacity of the split-layout camera: it comes with the progress
    /// into a split mode, goes with it out of one, and is full between two.
    pub fn split_camera_transition_opacity(&self) -> (r: Fixed)
        ensures
            r as int == by_membership(
                is_split(self.from_mode),
                is_split(self.to_mode),
                minus_spec(ONE as int, self.transition_progress as int),
                self.transition_progress as int,
                ONE as int,
                0,
            ),
    {
        let from_split: bool = mode_is_split(self.from_mode);
        let to_split: bool = mode_is_split(self.to_mode);
        if from_split && !to_split {
            minus(ONE, self.transition_progress)
        } else if !from_split && to_split {
            self.transition_progress
        } else if from_split && to_split {
            ONE
        } else {
            0
        }
    }

    /// The opacity of the full-screen camera, in the same way for the
    /// camera-only mode.
    pub fn camera_only_transition_opacity(&self) -> (r: Fixed)
        ensures
            r as int == by_membership(
                self.from_mode == SceneMode::CameraOnly,
                self.to_mode == SceneMode::CameraOnly,
                minus_spec(ONE as int, self.transition_progress as int),
                self.transition_progress as int,
                ONE as int,
                0,
            ),
    {
        let from_camera: bool = self.from_mode == SceneMode::CameraOnly;
        let to_camera: bool = self.to_mode == SceneMode::CameraOnly;
        if from_camera && !to_camera {
            minus(ONE, self.transition_progress)
        } else if !from_camera && to_camera {
            self.transition_progress
        } else if from_camera && to_camera {
            ONE
        } else {
            0
        }
    }

    /// The share of the camera's opacity that the fast fade leaves while the
    /// full-screen camera arrives: `max(0, 1 - 1.5 * progress)`.
    pub open spec fn fast_fade_out(progress: int) -> int {
        max_spec(minus_spec(ONE as int, times_spec(progress, FAST_FADE_FACTOR as int)), 0)
    }

    /// The share that it gives back while the full-screen camera leaves:
    /// `min(1, 1.5 * progress)`.
    pub open spec fn fast_fade_in(progress: int) -> int {
        min_spec(times_spec(progress, FAST_FADE_FACTOR as int), ONE as int)
    }

    /// The opacity of the regular camera: none in a split layout or within
    /// the camera-only mode, the camera's own outside of it, and faded one
    /// and a half times as fast as the blend while the full-screen camera
    /// comes or goes.
    pub open spec fn regular_camera_opacity(self) -> int {
        if is_split(self.scene_mode) {
            0
        } else {
            by_membership(
                self.from_mode == SceneMode::CameraOnly,
                self.to_mode == SceneMode::CameraOnly,
                times_spec(
                    Self::fast_fade_in(self.transition_progress as int),
                    self.camera_opacity as int,
                ),
                times_spec(
                    Self::fast_fade_out(self.transition_progress as int),
                    self.camera_opacity as int,
                ),
                0,
                self.camera_opacity as int,
            )
        }
    }

    /// The opacity of the regular camera.
    pub fn regular_camera_transition_opacity(&self) -> (r: Fixed)
        ensures
            r as int == self.regular_camera_opacity(),
    {
        if self.is_split_screen() {
            return 0;
        }
        let from_camera: bool = self.from_mode == SceneMode::CameraOnly;
        let to_camera: bool = self.to_mode == SceneMode::CameraOnly;
        if to_camera && !from_camera {
            let fast_fade: Fixed = max(minus(ONE, times(self.transition_progress, FAST_FADE_FACTOR)), 0);
            times(fast_fade, self.camera_opacity)
        } else if from_camera && !to_camera {
            let fast_fade: Fixed = min(times(self.transition_progress, FAST_FADE_FACTOR), ONE);
            times(fast_fade, self.camera_opacity)
        } else if from_camera && to_camera {
            0
        } else {
            self.camera_opacity
        }
    }
}

/// Inside a segment and before its last 0.3 s the scene rests in the
/// segment's mode, with that mode's values at rest.
pub proof fn lemma_rests_inside_segment(segments: Seq<SceneSegment>, time: int)
    requires
        current_segment(segments, time) is Some,
        time < minus_spec(
            current_segment(segments, time)->0.end as int,
            SCENE_TRANSITION_DURATION as int,
        ),
    ensures
        ({
            let mode = current_segment(segments, time)->0.mode;
            let scene = InterpolatedScene::blend(mode, mode, ONE);
            &&& transition_at(segments, time) == resting(mode)
            &&& scene.camera_opacity == scene_values(mode).0
            &&& scene.screen_opacity == scene_values(mode).1
            &&& scene.camera_scale == scene_values(mode).2
        }),
{
    let mode = current_segment(segments, time)->0.mode;
    lemma_blend_at_rest(mode);
}

/// Between segments, more than 0.3 s before the next one, the scene rests:
/// in the default mode, or in the mode shared by two segments less than
/// 0.5 s apart.
pub proof fn lemma_rests_between_segments(segments: Seq<SceneSegment>, time: int)
    requires
        current_segment(segments, time) is None,
        following_segment(segments, time) is Some,
        time < minus_spec(
            following_segment(segments, time)->0.start as int,
            SCENE_TRANSITION_DURATION as int,
        ),
    ensures
        transition_at(segments, time).progress is None,
        transition_at(segments, time).from_mode == transition_at(segments, time).to_mode,
{
}

/// A blend with equal ends has the values of its mode at rest.
pub proof fn lemma_blend_at_rest(mode: SceneMode)
    ensures
        ({
            let scene = InterpolatedScene::blend(mode, mode, ONE);
            &&& scene.camera_opacity == scene_values(mode).0
            &&& scene.screen_opacity == scene_values(mode).1
            &&& scene.camera_scale == scene_values(mode).2
            &&& scene.scene_mode == mode
            &&& scene.screen_blur == 0
            &&& scene.camera_only_zoom == ONE
            &&& scene.camera_only_blur == 0
        }),
{
    let v = scene_values(mode);
    lemma_lerp_at_one(v.0 as int, v.0 as int);
    lemma_lerp_at_one(v.1 as int, v.1 as int);
    lemma_lerp_at_one(v.2 as int, v.2 as int);
}

/// A blend begins with the values of the mode it leaves and ends with those
/// of the mode it enters; past half way the scene counts as the mode it
/// enters, up to half way as the mode it leaves.
pub proof fn lemma_blend_endpoints(from: SceneMode, to: SceneMode)
    ensures
        ({
            let scene = InterpolatedScene::blend(from, to, 0);
            &&& scene.camera_opacity == scene_values(from).0
            &&& scene.screen_opacity == scene_values(from).1
            &&& scene.camera_scale == scene_values(from).2
            &&& scene.scene_mode == from
        }),
        ({
            let scene = InterpolatedScene::blend(from, to, ONE);
            &&& scene.camera_opacity == scene_values(to).0
            &&& scene.screen_opacity == scene_values(to).1
            &&& scene.camera_scale == scene_values(to).2
            &&& scene.scene_mode == to
        }),
        forall|progress: Fixed|
            #[trigger] InterpolatedScene::blend(from, to, progress).scene_mode == (if progress
                > HALF {
                to
            } else {
                from
            }),
{
    let a = scene_values(from);
    let b = scene_values(to);
    lemma_lerp_at_zero(a.0 as int, b.0 as int);
    lemma_lerp_at_zero(a.1 as int, b.1 as int);
    lemma_lerp_at_zero(a.2 as int, b.2 as int);
    lemma_lerp_at_one(a.0 as int, b.0 as int);
    lemma_lerp_at_one(a.1 as int, b.1 as int);
    lemma_lerp_at_one(a.2 as int, b.2 as int);
}

} // verus!
