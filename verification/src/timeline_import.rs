//! Import of a timeline description: validation, the lowering of its text
//! segments and scene changes to timeline segments, and the merge into a
//! project.

use vstd::prelude::*;
use vstd::string::StringExecFns;
use crate::decimal::{decimal, fixed_decimal, push_decimal, push_fixed};
use crate::fixed::{clamp, clamp_spec, Fixed, ONE};
use crate::project::{
    ProjectConfiguration, SceneMode, SceneSegment, TextKeyframes, TextScalarKeyframe, TextSegment,
    TextVectorKeyframe, TimelineConfiguration, TimelineSegment, XY,
};

verus! {

/// A point of a timeline description.
#[derive(Clone, Copy, Debug, PartialEq, Eq, Structural)]
pub struct ImportXY {
    pub x: Fixed,
    pub y: Fixed,
}

/// A position keyframe of a timeline description.
#[derive(Clone, Copy, Debug, PartialEq, Eq, Structural)]
pub struct ImportVectorKeyframe {
    pub time: Fixed,
    pub x: Fixed,
    pub y: Fixed,
}

/// An opacity keyframe of a timeline description.
#[derive(Clone, Copy, Debug, PartialEq, Eq, Structural)]
pub struct ImportScalarKeyframe {
    pub time: Fixed,
    pub value: Fixed,
}

/// The keyframes of a text segment of a timeline description.
#[derive(Clone, Debug)]
pub struct ImportTextKeyframes {
    pub position: Vec<ImportVectorKeyframe>,
    pub opacity: Vec<ImportScalarKeyframe>,
}

impl Default for ImportTextKeyframes {
    fn default() -> (r: Self)
        ensures
            r.position@.len() == 0,
            r.opacity@.len() == 0,
    {
        ImportTextKeyframes { position: Vec::new(), opacity: Vec::new() }
    }
}

/// A text segment of a timeline description; what is `None` is filled in on import.
#[derive(Clone, Debug)]
pub struct ImportTextSegment {
    pub start: Fixed,
    pub end: Fixed,
    pub content: String,
    pub center: Option<ImportXY>,
    pub font_size: Option<Fixed>,
    pub font_family: Option<String>,
    /// The weight, where the description gave one that reads as a number.
    pub font_weight: Option<Fixed>,
    pub font_color: Option<String>,
    pub fade_duration: Option<Fixed>,
    pub keyframes: Option<ImportTextKeyframes>,
}

/// What a scene change of a timeline description switches to.
#[derive(Clone, Copy, Debug, PartialEq, Eq, Structural)]
pub enum ImportSceneMode {
    Camera,
    Screen,
    SplitScreenLeft,
    SplitScreenRight,
}

/// A change of scene at `time` seconds.
#[derive(Clone, Copy, Debug, PartialEq, Eq, Structural)]
pub struct ImportSceneChange {
    pub time: Fixed,
    pub mode: ImportSceneMode,
}

/// A timeline description of version 1.0.0: text segments and scene changes.
#[derive(Clone, Debug)]
pub struct TimelineImport {
    pub version: String,
    pub text_segments: Vec<ImportTextSegment>,
    pub scene_changes: Vec<ImportSceneChange>,
}

/// What becomes of the segments that a timeline already has.
#[derive(Clone, Copy, Debug, PartialEq, Eq, Structural)]
pub enum ImportMergeMode {
    Replace,
    Append,
}

impl Default for ImportMergeMode {
    fn default() -> (mode: Self)
        ensures
            mode == ImportMergeMode::Replace,
    {
        ImportMergeMode::Replace
    }
}

/// What an import brought.
#[derive(Clone, Debug)]
pub struct ImportResult {
    pub text_segments_imported: u32,
    pub scene_segments_created: u32,
    pub warnings: Vec<String>,
}

/// Why a timeline description is not imported.
#[derive(Clone, Debug)]
pub enum TimelineImportError {
    UnsupportedVersion(String),
    InvalidTimeRange { index: usize, start: Fixed, end: Fixed },
    EmptyContent { index: usize },
    NegativeKeyframeTime { index: usize, time: Fixed },
    UnsortedSceneChanges,
    DuplicateSceneTime { time: Fixed },
}

/// What is wrong with a timeline description; the view of an error.
pub enum ImportFault {
    UnsupportedVersion(Seq<char>),
    InvalidTimeRange { index: int, start: Fixed, end: Fixed },
    EmptyContent { index: int },
    NegativeKeyframeTime { index: int, time: Fixed },
    UnsortedSceneChanges,
    DuplicateSceneTime { time: Fixed },
}

impl View for TimelineImportError {
    type V = ImportFault;

    open spec fn view(&self) -> ImportFault {
        match *self {
            TimelineImportError::UnsupportedVersion(version) => ImportFault::UnsupportedVersion(
                version@,
            ),
            TimelineImportError::InvalidTimeRange { index, start, end } => {
                ImportFault::InvalidTimeRange { index: index as int, start, end }
            },
            TimelineImportError::EmptyContent { index } => ImportFault::EmptyContent {
                index: index as int,
            },
            TimelineImportError::NegativeKeyframeTime { index, time } => {
                ImportFault::NegativeKeyframeTime { index: index as int, time }
            },
            TimelineImportError::UnsortedSceneChanges => ImportFault::UnsortedSceneChanges,
            TimelineImportError::DuplicateSceneTime { time } => ImportFault::DuplicateSceneTime {
                time,
            },
        }
    }
}

/// Whether `c` is white space: one of the characters that trimming removes.
pub open spec fn is_white_space(c: char) -> bool {
    let code = c as int;
    ||| 0x09 <= code <= 0x0d
    ||| code == 0x20
    ||| code == 0x85
    ||| code == 0xa0
    ||| code == 0x1680
    ||| 0x2000 <= code <= 0x200a
    ||| code == 0x2028
    ||| code == 0x2029
    ||| code == 0x202f
    ||| code == 0x205f
    ||| code == 0x3000
}

/// Whether nothing is left of the text once it is trimmed.
pub open spec fn is_blank(text: Seq<char>) -> bool {
    forall|i: int| 0 <= i < text.len() ==> is_white_space(#[trigger] text[i])
}

/// Whether the value lies outside `[0, 1]` and will be clamped.
pub open spec fn out_of_unit(value: Fixed) -> bool {
    value < 0 || value > ONE
}

/// The first position keyframe from `from` on with a negative time.
pub open spec fn negative_position_time(
    keys: Seq<ImportVectorKeyframe>,
    from: int,
) -> Option<Fixed>
    decreases keys.len() - from,
{
    if from < 0 || from >= keys.len() {
        None
    } else if keys[from].time < 0 {
        Some(keys[from].time)
    } else {
        negative_position_time(keys, from + 1)
    }
}

/// The first opacity keyframe from `from` on with a negative time.
pub open spec fn negative_opacity_time(keys: Seq<ImportScalarKeyframe>, from: int) -> Option<Fixed>
    decreases keys.len() - from,
{
    if from < 0 || from >= keys.len() {
        None
    } else if keys[from].time < 0 {
        Some(keys[from].time)
    } else {
        negative_opacity_time(keys, from + 1)
    }
}

/// The first negative keyframe time of a segment: position keyframes come
/// before opacity keyframes.
pub open spec fn negative_keyframe_time(segment: ImportTextSegment) -> Option<Fixed> {
    match segment.keyframes {
        Some(keyframes) => match negative_position_time(keyframes.position@, 0) {
            Some(time) => Some(time),
            None => negative_opacity_time(keyframes.opacity@, 0),
        },
        None => None,
    }
}

/// What is wrong with the text segment at `index`, if anything: its time
/// range is checked first, then its content, then its keyframe times.
pub open spec fn segment_fault(segment: ImportTextSegment, index: int) -> Option<ImportFault> {
    if segment.end <= segment.start {
        Some(ImportFault::InvalidTimeRange { index, start: segment.start, end: segment.end })
    } else if is_blank(segment.content@) {
        Some(ImportFault::EmptyContent { index })
    } else {
        match negative_keyframe_time(segment) {
            Some(time) => Some(ImportFault::NegativeKeyframeTime { index, time }),
            None => None,
        }
    }
}

/// The fault of the first faulty text segment from `from` on.
pub open spec fn segments_fault(segments: Seq<ImportTextSegment>, from: int) -> Option<ImportFault>
    decreases segments.len() - from,
{
    if from < 0 || from >= segments.len() {
        None
    } else {
        match segment_fault(segments[from], from) {
            Some(fault) => Some(fault),
            None => segments_fault(segments, from + 1),
        }
    }
}

/// What is wrong with the scene changes from `from` on, if anything: a
/// change before its predecessor, or at the same time.
pub open spec fn scene_changes_fault(changes: Seq<ImportSceneChange>, from: int) -> Option<
    ImportFault,
>
    decreases changes.len() - from,
{
    if from < 1 || from >= changes.len() {
        None
    } else if changes[from].time < changes[from - 1].time {
        Some(ImportFault::UnsortedSceneChanges)
    } else if changes[from].time == changes[from - 1].time {
        Some(ImportFault::DuplicateSceneTime { time: changes[from].time })
    } else {
        scene_changes_fault(changes, from + 1)
    }
}

/// What is wrong with a timeline description, if anything: the version is
/// checked first, then the text segments in order, then the scene changes.
pub open spec fn import_fault(import: TimelineImport) -> Option<ImportFault> {
    if import.version@ != "1.0.0"@ {
        Some(ImportFault::UnsupportedVersion(import.version@))
    } else {
        match segments_fault(import.text_segments@, 0) {
            Some(fault) => Some(fault),
            None => scene_changes_fault(import.scene_changes@, 1),
        }
    }
}

/// The warning that a value of segment `index` will be clamped; `what`
/// names the value.
pub open spec fn clamp_warning(index: int, what: Seq<char>, value: Fixed) -> Seq<char> {
    "Segment "@ + decimal(index as nat) + ": "@ + what + " ("@ + fixed_decimal(value as int)
        + ") will be clamped to [0.0, 1.0]"@
}

/// The name of a value of keyframe `key` in a warning.
pub open spec fn keyframe_label(track: Seq<char>, key: int, field: Seq<char>) -> Seq<char> {
    track + " keyframe "@ + decimal(key as nat) + " "@ + field
}

/// The warnings for `value`: one if it will be clamped.
pub open spec fn value_warnings(index: int, what: Seq<char>, value: Fixed) -> Seq<Seq<char>> {
    if out_of_unit(value) {
        seq![clamp_warning(index, what, value)]
    } else {
        Seq::empty()
    }
}

/// The warnings for the first `upto` position keyframes.
pub open spec fn position_warnings(
    index: int,
    keys: Seq<ImportVectorKeyframe>,
    upto: int,
) -> Seq<Seq<char>>
    decreases upto,
{
    if upto <= 0 || upto > keys.len() {
        Seq::empty()
    } else {
        position_warnings(index, keys, upto - 1) + value_warnings(
            index,
            keyframe_label("position"@, upto - 1, "x"@),
            keys[upto - 1].x,
        ) + value_warnings(index, keyframe_label("position"@, upto - 1, "y"@), keys[upto - 1].y)
    }
}

/// The warnings for the first `upto` opacity keyframes.
pub open spec fn opacity_warnings(
    index: int,
    keys: Seq<ImportScalarKeyframe>,
    upto: int,
) -> Seq<Seq<char>>
    decreases upto,
{
    if upto <= 0 || upto > keys.len() {
        Seq::empty()
    } else {
        opacity_warnings(index, keys, upto - 1) + value_warnings(
            index,
            keyframe_label("opacity"@, upto - 1, "value"@),
            keys[upto - 1].value,
        )
    }
}

/// The warnings for the text segment at `index`: for its center, then its
/// position keyframes, then its opacity keyframes.
pub open spec fn segment_warnings(segment: ImportTextSegment, index: int) -> Seq<Seq<char>> {
    (match segment.center {
        Some(center) => value_warnings(index, "center.x"@, center.x) + value_warnings(
            index,
            "center.y"@,
            center.y,
        ),
        None => Seq::empty(),
    }) + (match segment.keyframes {
        Some(keyframes) => position_warnings(
            index,
            keyframes.position@,
            keyframes.position@.len() as int,
        ) + opacity_warnings(index, keyframes.opacity@, keyframes.opacity@.len() as int),
        None => Seq::empty(),
    })
}

/// The warnings for the first `upto` text segments.
pub open spec fn segments_warnings(segments: Seq<ImportTextSegment>, upto: int) -> Seq<Seq<char>>
    decreases upto,
{
    if upto <= 0 || upto > segments.len() {
        Seq::empty()
    } else {
        segments_warnings(segments, upto - 1) + segment_warnings(segments[upto - 1], upto - 1)
    }
}

/// The texts of a list of strings.
pub open spec fn texts(strings: Seq<String>) -> Seq<Seq<char>> {
    strings.map_values(|s: String| s@)
}

fn char_is_white_space(c: char) -> (r: bool)
    ensures
        r == is_white_space(c),
{
    let code: u32 = c as u32;
    (0x09 <= code && code <= 0x0d) || code == 0x20 || code == 0x85 || code == 0xa0 || code
        == 0x1680 || (0x2000 <= code && code <= 0x200a) || code == 0x2028 || code == 0x2029
        || code == 0x202f || code == 0x205f || code == 0x3000
}

/// Whether trimming leaves nothing of `text`.
pub fn text_is_blank(text: &str) -> (r: bool)
    ensures
        r == is_blank(text@),
{
    let n: usize = text.unicode_len();
    let mut i: usize = 0;
    while i < n
        invariant
            n == text@.len(),
            i <= n,
            forall|k: int| 0 <= k < i ==> is_white_space(#[trigger] text@[k]),
        decreases n - i,
    {
        if !char_is_white_space(text.get_char(i)) {
            return false;
        }
        i = i + 1;
    }
    true
}

fn make_warning(index: usize, what: &str, value: Fixed) -> (warning: String)
    ensures
        warning@ == clamp_warning(index as int, what@, value),
{
    let mut warning = String::from_str("Segment ");
    push_decimal(&mut warning, index as u64);
    warning.append(": ");
    warning.append(what);
    warning.append(" (");
    push_fixed(&mut warning, value);
    warning.append(") will be clamped to [0.0, 1.0]");
    assert(warning@ =~= clamp_warning(index as int, what@, value));
    warning
}

fn make_label(track: &str, key: usize, field: &str) -> (label: String)
    ensures
        label@ == keyframe_label(track@, key as int, field@),
{
    let mut label = String::from_str(track);
    label.append(" keyframe ");
    push_decimal(&mut label, key as u64);
    label.append(" ");
    label.append(field);
    assert(label@ =~= keyframe_label(track@, key as int, field@));
    label
}

fn warn_if_clamped(warnings: &mut Vec<String>, index: usize, what: &str, value: Fixed)
    ensures
        texts(final(warnings)@) == texts(old(warnings)@) + value_warnings(
            index as int,
            what@,
            value,
        ),
{
    if value < 0 || value > ONE {
        let warning = make_warning(index, what, value);
        warnings.push(warning);
    }
    assert(texts(final(warnings)@) =~= texts(old(warnings)@) + value_warnings(
        index as int,
        what@,
        value,
    ));
}

fn check_segment(segment: &ImportTextSegment, index: usize) -> (r: Result<(), TimelineImportError>)
    ensures
        match r {
            Ok(_) => segment_fault(*segment, index as int) is None,
            Err(error) => segment_fault(*segment, index as int) == Some(error@),
        },
{
    if segment.end <= segment.start {
        return Err(
            TimelineImportError::InvalidTimeRange { index, start: segment.start, end: segment.end },
        );
    }
    if text_is_blank(segment.content.as_str()) {
        return Err(TimelineImportError::EmptyContent { index });
    }
    if let Some(keyframes) = &segment.keyframes {
        let n: usize = keyframes.position.len();
        let mut i: usize = 0;
        while i < n
            invariant
                n == keyframes.position@.len(),
                i <= n,
                segment.end > segment.start,
                !is_blank(segment.content@),
                segment.keyframes == Some(*keyframes),
                negative_position_time(keyframes.position@, 0) == negative_position_time(
                    keyframes.position@,
                    i as int,
                ),
            decreases n - i,
        {
            if keyframes.position[i].time < 0 {
                return Err(
                    TimelineImportError::NegativeKeyframeTime {
                        index,
                        time: keyframes.position[i].time,
                    },
                );
            }
            i = i + 1;
        }
        let m: usize = keyframes.opacity.len();
        let mut j: usize = 0;
        while j < m
            invariant
                m == keyframes.opacity@.len(),
                j <= m,
                segment.end > segment.start,
                !is_blank(segment.content@),
                segment.keyframes == Some(*keyframes),
                negative_position_time(keyframes.position@, 0) is None,
                negative_opacity_time(keyframes.opacity@, 0) == negative_opacity_time(
                    keyframes.opacity@,
                    j as int,
                ),
            decreases m - j,
        {
            if keyframes.opacity[j].time < 0 {
                return Err(
                    TimelineImportError::NegativeKeyframeTime {
                        index,
                        time: keyframes.opacity[j].time,
                    },
                );
            }
            j = j + 1;
        }
    }
    Ok(())
}

fn warn_segment(warnings: &mut Vec<String>, segment: &ImportTextSegment, index: usize)
    ensures
        texts(final(warnings)@) == texts(old(warnings)@) + segment_warnings(*segment, index as int),
{
    if let Some(center) = &segment.center {
        warn_if_clamped(warnings, index, "center.x", center.x);
        warn_if_clamped(warnings, index, "center.y", center.y);
    }
    let ghost after_center = texts(warnings@);
    if let Some(keyframes) = &segment.keyframes {
        let n: usize = keyframes.position.len();
        let mut i: usize = 0;
        while i < n
            invariant
                n == keyframes.position@.len(),
                i <= n,
                texts(warnings@) == after_center + position_warnings(
                    index as int,
                    keyframes.position@,
                    i as int,
                ),
            decreases n - i,
        {
            let ghost before = texts(warnings@);
            let label_x = make_label("position", i, "x");
            warn_if_clamped(warnings, index, label_x.as_str(), keyframes.position[i].x);
            let label_y = make_label("position", i, "y");
            warn_if_clamped(warnings, index, label_y.as_str(), keyframes.position[i].y);
            i = i + 1;
            assert(texts(warnings@) =~= after_center + position_warnings(
                index as int,
                keyframes.position@,
                i as int,
            ));
        }
        let ghost after_position = texts(warnings@);
        let m: usize = keyframes.opacity.len();
        let mut j: usize = 0;
        while j < m
            invariant
                m == keyframes.opacity@.len(),
                j <= m,
                texts(warnings@) == after_position + opacity_warnings(
                    index as int,
                    keyframes.opacity@,
                    j as int,
                ),
            decreases m - j,
        {
            let label = make_label("opacity", j, "value");
            warn_if_clamped(warnings, index, label.as_str(), keyframes.opacity[j].value);
            j = j + 1;
            assert(texts(warnings@) =~= after_position + opacity_warnings(
                index as int,
                keyframes.opacity@,
                j as int,
            ));
        }
    }
    assert(texts(final(warnings)@) =~= texts(old(warnings)@) + segment_warnings(
        *segment,
        index as int,
    ));
}

/// Whether `result` is what validation makes of `import`: the first fault,
/// or, for a description without fault, the warnings for all segments.
pub open spec fn is_validation_of(
    import: TimelineImport,
    result: Result<Vec<String>, TimelineImportError>,
) -> bool {
    match result {
        Ok(warnings) => {
            &&& import_fault(import) is None
            &&& texts(warnings@) == segments_warnings(
                import.text_segments@,
                import.text_segments@.len() as int,
            )
        },
        Err(error) => import_fault(import) == Some(error@),
    }
}

/// Validating again changes nothing: a description that has passed passes
/// whenever it is validated, with the same warnings, and one that has
/// failed fails with the same fault.
pub proof fn lemma_validation_repeats(
    import: TimelineImport,
    first: Result<Vec<String>, TimelineImportError>,
    second: Result<Vec<String>, TimelineImportError>,
)
    requires
        is_validation_of(import, first),
        is_validation_of(import, second),
    ensures
        first is Ok <==> second is Ok,
        first is Ok ==> texts(first->Ok_0@) == texts(second->Ok_0@),
        first is Err ==> first->Err_0@ == second->Err_0@,
{
}

/// Validates a timeline description. A fault fails it as a whole; values
/// outside `[0, 1]` only bring warnings, in the order of the segments.
pub fn validate_import(import: &TimelineImport) -> (r: Result<Vec<String>, TimelineImportError>)
    ensures
        is_validation_of(*import, r),
{
    let mut warnings: Vec<String> = Vec::new();
    let expected = String::from_str("1.0.0");
    if !(import.version == expected) {
        return Err(TimelineImportError::UnsupportedVersion(import.version.clone()));
    }
    let n: usize = import.text_segments.len();
    let mut index: usize = 0;
    assert(texts(warnings@) =~= segments_warnings(import.text_segments@, 0));
    while index < n
        invariant
            n == import.text_segments@.len(),
            index <= n,
            import.version@ == "1.0.0"@,
            segments_fault(import.text_segments@, 0) == segments_fault(
                import.text_segments@,
                index as int,
            ),
            texts(warnings@) == segments_warnings(import.text_segments@, index as int),
        decreases n - index,
    {
        let segment: &ImportTextSegment = &import.text_segments[index];
        match check_segment(segment, index) {
            Err(error) => {
                return Err(error);
            },
            Ok(_) => {},
        }
        warn_segment(&mut warnings, segment, index);
        index = index + 1;
    }
    let m: usize = import.scene_changes.len();
    let mut at: usize = 1;
    while at < m
        invariant
            m == import.scene_changes@.len(),
            1 <= at,
            import.version@ == "1.0.0"@,
            segments_fault(import.text_segments@, 0) is None,
            scene_changes_fault(import.scene_changes@, 1) == scene_changes_fault(
                import.scene_changes@,
                at as int,
            ),
        decreases m - at,
    {
        let time: Fixed = import.scene_changes[at].time;
        let prev: Fixed = import.scene_changes[at - 1].time;
        if time < prev {
            return Err(TimelineImportError::UnsortedSceneChanges);
        }
        if time == prev {
            return Err(TimelineImportError::DuplicateSceneTime { time });
        }
        at = at + 1;
    }
    Ok(warnings)
}

/// The scene mode that a scene change of the description asks for.
pub open spec fn scene_mode_of(mode: ImportSceneMode) -> SceneMode {
    match mode {
        ImportSceneMode::Camera => SceneMode::CameraOnly,
        ImportSceneMode::Screen => SceneMode::Default,
        ImportSceneMode::SplitScreenLeft => SceneMode::SplitScreenLeft,
        ImportSceneMode::SplitScreenRight => SceneMode::SplitScreenRight,
    }
}

/// The scene mode that a scene change asks for.
pub fn transform_scene_mode(mode: &ImportSceneMode) -> (r: SceneMode)
    ensures
        r == scene_mode_of(*mode),
{
    match mode {
        ImportSceneMode::Camera => SceneMode::CameraOnly,
        ImportSceneMode::Screen => SceneMode::Default,
        ImportSceneMode::SplitScreenLeft => SceneMode::SplitScreenLeft,
        ImportSceneMode::SplitScreenRight => SceneMode::SplitScreenRight,
    }
}

/// Where the segment that begins with scene change `i` ends: at the next
/// change, or with the video after the last one.
pub open spec fn change_end(changes: Seq<ImportSceneChange>, video_duration: Fixed, i: int) -> Fixed {
    if i + 1 < changes.len() {
        changes[i + 1].time
    } else {
        video_duration
    }
}

/// The scene segments that the first `upto` scene changes give: one from
/// each change to the next, empty ones left out.
pub open spec fn lowered_changes(
    changes: Seq<ImportSceneChange>,
    video_duration: Fixed,
    upto: int,
) -> Seq<SceneSegment>
    decreases upto,
{
    if upto <= 0 || upto > changes.len() {
        Seq::empty()
    } else {
        let rest = lowered_changes(changes, video_duration, upto - 1);
        let start = changes[upto - 1].time;
        let end = change_end(changes, video_duration, upto - 1);
        if end > start {
            rest.push(SceneSegment { start, end, mode: scene_mode_of(changes[upto - 1].mode) })
        } else {
            rest
        }
    }
}

/// The scene segments between scene changes; the last lasts to the end of the video.
pub fn transform_scene_changes(changes: &[ImportSceneChange], video_duration: Fixed) -> (segments:
    Vec<SceneSegment>)
    ensures
        segments@ == lowered_changes(changes@, video_duration, changes@.len() as int),
{
    let n: usize = changes.len();
    let mut segments: Vec<SceneSegment> = Vec::new();
    let mut i: usize = 0;
    while i < n
        invariant
            n == changes@.len(),
            i <= n,
            segments@ == lowered_changes(changes@, video_duration, i as int),
        decreases n - i,
    {
        let start: Fixed = changes[i].time;
        let end: Fixed = if i + 1 < n {
            changes[i + 1].time
        } else {
            video_duration
        };
        if end > start {
            segments.push(SceneSegment { start, end, mode: transform_scene_mode(&changes[i].mode) });
        }
        i = i + 1;
    }
    segments
}

/// A coordinate or an opacity brought into `[0, 1]`.
pub open spec fn unit_clamped(value: Fixed) -> Fixed {
    clamp_spec(value as int, 0, ONE as int) as Fixed
}

/// Whether `segment` is what the description's `source` becomes on the
/// timeline: times and content are kept; coordinates and opacities are
/// clamped to `[0, 1]`; what the description leaves open is filled in: the
/// center of the frame, size 50 and weight 700 of "Inter", white, no fade.
pub open spec fn is_transformed(segment: TextSegment, source: ImportTextSegment) -> bool {
    &&& segment.start == source.start
    &&& segment.end == source.end
    &&& segment.enabled
    &&& segment.content@ == source.content@
    &&& segment.center == (match source.center {
        Some(center) => XY { x: unit_clamped(center.x), y: unit_clamped(center.y) },
        None => XY { x: 500_000_000i64, y: 500_000_000i64 },
    })
    &&& segment.size == (XY { x: 350_000_000i64, y: 200_000_000i64 })
    &&& segment.font_family@ == (match source.font_family {
        Some(family) => family@,
        None => "Inter"@,
    })
    &&& segment.font_size == (match source.font_size {
        Some(size) => size,
        None => 50_000_000_000,
    })
    &&& segment.font_weight == (match source.font_weight {
        Some(weight) => weight,
        None => 700_000_000_000,
    })
    &&& !segment.italic
    &&& segment.color@ == (match source.font_color {
        Some(color) => color@,
        None => "#FFFFFF"@,
    })
    &&& segment.fade_duration == (match source.fade_duration {
        Some(fade) => fade,
        None => 0,
    })
    &&& match source.keyframes {
        Some(keyframes) => {
            &&& segment.keyframes.position@.len() == keyframes.position@.len()
            &&& forall|i: int|
                0 <= i < keyframes.position@.len() ==> #[trigger] segment.keyframes.position@[i]
                    == (TextVectorKeyframe {
                    time: keyframes.position@[i].time,
                    x: unit_clamped(keyframes.position@[i].x),
                    y: unit_clamped(keyframes.position@[i].y),
                })
            &&& segment.keyframes.opacity@.len() == keyframes.opacity@.len()
            &&& forall|i: int|
                0 <= i < keyframes.opacity@.len() ==> #[trigger] segment.keyframes.opacity@[i]
                    == (TextScalarKeyframe {
                    time: keyframes.opacity@[i].time,
                    value: unit_clamped(keyframes.opacity@[i].value),
                })
        },
        None => segment.keyframes.position@.len() == 0 && segment.keyframes.opacity@.len() == 0,
    }
}

/// Whether the value lies in `[0, 1]`.
pub open spec fn in_unit(value: Fixed) -> bool {
    0 <= value <= ONE
}

/// Whatever the description holds, the segment that comes of it has its
/// center, the coordinates of its position keyframes and the values of its
/// opacity keyframes in `[0, 1]`.
pub proof fn lemma_transformed_is_clamped(segment: TextSegment, source: ImportTextSegment)
    requires
        is_transformed(segment, source),
    ensures
        in_unit(segment.center.x) && in_unit(segment.center.y),
        forall|i: int|
            0 <= i < segment.keyframes.position@.len() ==> in_unit(
                (#[trigger] segment.keyframes.position@[i]).x,
            ) && in_unit(segment.keyframes.position@[i].y),
        forall|i: int|
            0 <= i < segment.keyframes.opacity@.len() ==> in_unit(
                (#[trigger] segment.keyframes.opacity@[i]).value,
            ),
{
}

fn clamp_position(val: Fixed) -> (r: Fixed)
    ensures
        r == unit_clamped(val),
{
    clamp(val, 0, ONE)
}

fn clamp_opacity(val: Fixed) -> (r: Fixed)
    ensures
        r == unit_clamped(val),
{
    clamp(val, 0, ONE)
}

fn text_or(text: &Option<String>, fallback: &str) -> (r: String)
    ensures
        r@ == (match *text {
            Some(given) => given@,
            None => fallback@,
        }),
{
    match text {
        Some(given) => given.clone(),
        None => String::from_str(fallback),
    }
}

/// The text segment of the timeline for one of the description.
pub fn transform_text_segment(seg: &ImportTextSegment) -> (segment: TextSegment)
    ensures
        is_transformed(segment, *seg),
{
    let center: XY<Fixed> = match &seg.center {
        Some(c) => XY::new(clamp_position(c.x), clamp_position(c.y)),
        None => XY::new(500_000_000, 500_000_000),
    };
    let font_size: Fixed = match seg.font_size {
        Some(size) => size,
        None => 50_000_000_000,
    };
    let font_family: String = text_or(&seg.font_family, "Inter");
    let font_weight: Fixed = match seg.font_weight {
        Some(weight) => weight,
        None => 700_000_000_000,
    };
    let color: String = text_or(&seg.font_color, "#FFFFFF");
    let fade_duration: Fixed = match seg.fade_duration {
        Some(fade) => fade,
        None => 0,
    };
    let mut position: Vec<TextVectorKeyframe> = Vec::new();
    let mut opacity: Vec<TextScalarKeyframe> = Vec::new();
    if let Some(kf) = &seg.keyframes {
        let n: usize = kf.position.len();
        let mut i: usize = 0;
        while i < n
            invariant
                n == kf.position@.len(),
                i <= n,
                position@.len() == i,
                forall|k: int|
                    0 <= k < i ==> #[trigger] position@[k] == (TextVectorKeyframe {
                        time: kf.position@[k].time,
                        x: unit_clamped(kf.position@[k].x),
                        y: unit_clamped(kf.position@[k].y),
                    }),
            decreases n - i,
        {
            let p: &ImportVectorKeyframe = &kf.position[i];
            position.push(
                TextVectorKeyframe { time: p.time, x: clamp_position(p.x), y: clamp_position(p.y) },
            );
            i = i + 1;
        }
        let m: usize = kf.opacity.len();
        let mut j: usize = 0;
        while j < m
            invariant
                m == kf.opacity@.len(),
                j <= m,
                opacity@.len() == j,
                forall|k: int|
                    0 <= k < j ==> #[trigger] opacity@[k] == (TextScalarKeyframe {
                        time: kf.opacity@[k].time,
                        value: unit_clamped(kf.opacity@[k].value),
                    }),
            decreases m - j,
        {
            let o: &ImportScalarKeyframe = &kf.opacity[j];
            opacity.push(TextScalarKeyframe { time: o.time, value: clamp_opacity(o.value) });
            j = j + 1;
        }
    }
    TextSegment {
        start: seg.start,
        end: seg.end,
        enabled: true,
        content: seg.content.clone(),
        center,
        size: XY::new(350_000_000, 200_000_000),
        font_family,
        font_size,
        font_weight,
        italic: false,
        color,
        fade_duration,
        keyframes: TextKeyframes { position, opacity },
    }
}

/// `len` as a count of 32 bits, held at the largest.
pub open spec fn count_of(len: nat) -> u32 {
    if len > u32::MAX {
        u32::MAX
    } else {
        len as u32
    }
}

fn count(len: usize) -> (r: u32)
    ensures
        r == count_of(len as nat),
{
    if len > u32::MAX as usize {
        u32::MAX
    } else {
        len as u32
    }
}

/// The text segments of a timeline, none where there is no timeline.
pub open spec fn texts_before(before: Option<TimelineConfiguration>) -> Seq<TextSegment> {
    match before {
        Some(timeline) => timeline.text_segments@,
        None => Seq::empty(),
    }
}

/// The scene segments of a timeline, none where there is no timeline.
pub open spec fn scenes_before(before: Option<TimelineConfiguration>) -> Seq<SceneSegment> {
    match before {
        Some(timeline) => timeline.scene_segments@,
        None => Seq::empty(),
    }
}

/// The clips' segments of a timeline, none where there is no timeline.
pub open spec fn segments_before(before: Option<TimelineConfiguration>) -> Seq<TimelineSegment> {
    match before {
        Some(timeline) => timeline.segments@,
        None => Seq::empty(),
    }
}

/// Whether `after` is `before` with the text segments `texts` and the scene
/// segments `scenes` merged in: replacing puts the texts in place of those
/// that were there, and the scenes too if there are any; appending adds
/// both behind what was there. The clips' segments stay. Where there was
/// no timeline, an empty one takes its place.
pub open spec fn is_merged(
    before: Option<TimelineConfiguration>,
    after: TimelineConfiguration,
    texts: Seq<TextSegment>,
    scenes: Seq<SceneSegment>,
    mode: ImportMergeMode,
) -> bool {
    &&& after.segments@ == segments_before(before)
    &&& after.text_segments@ == (match mode {
        ImportMergeMode::Replace => texts,
        ImportMergeMode::Append => texts_before(before) + texts,
    })
    &&& after.scene_segments@ == (match mode {
        ImportMergeMode::Replace => if scenes.len() > 0 {
            scenes
        } else {
            scenes_before(before)
        },
        ImportMergeMode::Append => scenes_before(before) + scenes,
    })
}

/// Merges imported segments into a timeline.
pub fn merge_import(
    timeline: &mut TimelineConfiguration,
    text_segments: Vec<TextSegment>,
    scene_segments: Vec<SceneSegment>,
    mode: ImportMergeMode,
)
    ensures
        is_merged(Some(*old(timeline)), *final(timeline), text_segments@, scene_segments@, mode),
{
    let mut new_texts = text_segments;
    let mut new_scenes = scene_segments;
    match mode {
        ImportMergeMode::Replace => {
            timeline.text_segments = new_texts;
            if new_scenes.len() > 0 {
                timeline.scene_segments = new_scenes;
            }
        },
        ImportMergeMode::Append => {
            timeline.text_segments.append(&mut new_texts);
            if new_scenes.len() > 0 {
                timeline.scene_segments.append(&mut new_scenes);
            }
            assert(timeline.scene_segments@ =~= old(timeline).scene_segments@ + scene_segments@);
        },
    }
}

/// The length of the video that the scene changes are cut against.
pub open spec fn video_duration_of(config: ProjectConfiguration) -> Fixed {
    match config.timeline {
        Some(timeline) => timeline.duration_spec(),
        None => 0,
    }
}

/// Imports a timeline description into a project. A description that
/// fails validation leaves the project as it was.
pub fn apply_import(
    config: &mut ProjectConfiguration,
    import: &TimelineImport,
    mode: ImportMergeMode,
) -> (r: Result<ImportResult, TimelineImportError>)
    ensures
        match r {
            Err(error) => import_fault(*import) == Some(error@) && *final(config) == *old(config),
            Ok(result) => {
                &&& import_fault(*import) is None
                &&& texts(result.warnings@) == segments_warnings(
                    import.text_segments@,
                    import.text_segments@.len() as int,
                )
                &&& result.text_segments_imported == count_of(import.text_segments@.len())
                &&& result.scene_segments_created == count_of(
                    lowered_changes(
                        import.scene_changes@,
                        video_duration_of(*old(config)),
                        import.scene_changes@.len() as int,
                    ).len(),
                )
                &&& final(config).clips == old(config).clips
                &&& final(config).audio == old(config).audio
                &&& final(config).timeline is Some
                &&& exists|imported: Seq<TextSegment>|
                    {
                        &&& imported.len() == import.text_segments@.len()
                        &&& forall|i: int|
                            0 <= i < imported.len() ==> is_transformed(
                                #[trigger] imported[i],
                                import.text_segments@[i],
                            )
                        &&& is_merged(
                            old(config).timeline,
                            final(config).timeline.unwrap(),
                            imported,
                            lowered_changes(
                                import.scene_changes@,
                                video_duration_of(*old(config)),
                                import.scene_changes@.len() as int,
                            ),
                            mode,
                        )
                    }
            },
        },
{
    let warnings = match validate_import(import) {
        Ok(warnings) => warnings,
        Err(error) => {
            return Err(error);
        },
    };
    let video_duration: Fixed = match &config.timeline {
        Some(timeline) => timeline.duration(),
        None => 0,
    };
    let n: usize = import.text_segments.len();
    let mut text_segments: Vec<TextSegment> = Vec::new();
    let mut i: usize = 0;
    while i < n
        invariant
            n == import.text_segments@.len(),
            i <= n,
            text_segments@.len() == i,
            forall|k: int|
                0 <= k < i ==> is_transformed(#[trigger] text_segments@[k], import.text_segments@[k]),
        decreases n - i,
    {
        text_segments.push(transform_text_segment(&import.text_segments[i]));
        i = i + 1;
    }
    let scene_segments = transform_scene_changes(import.scene_changes.as_slice(), video_duration);
    let text_segments_imported: u32 = count(text_segments.len());
    let scene_segments_created: u32 = count(scene_segments.len());
    let ghost imported = text_segments@;
    if config.timeline.is_none() {
        config.timeline = Some(
            TimelineConfiguration {
                segments: Vec::new(),
                scene_segments: Vec::new(),
                text_segments: Vec::new(),
            },
        );
    }
    let mut timeline = config.timeline.take().unwrap();
    merge_import(&mut timeline, text_segments, scene_segments, mode);
    config.timeline = Some(timeline);
    proof {
        assert(is_merged(
            old(config).timeline,
            config.timeline.unwrap(),
            imported,
            lowered_changes(
                import.scene_changes@,
                video_duration_of(*old(config)),
                import.scene_changes@.len() as int,
            ),
            mode,
        ));
    }
    Ok(ImportResult { text_segments_imported, scene_segments_created, warnings })
}

/// Whether `clamped` is the segment `source` with the values that
/// validation warns of brought into `[0, 1]`: the center, the coordinates
/// of position keyframes and the values of opacity keyframes.
pub open spec fn is_clamped_segment(clamped: ImportTextSegment, source: ImportTextSegment) -> bool {
    &&& clamped.start == source.start
    &&& clamped.end == source.end
    &&& clamped.content@ == source.content@
    &&& match (clamped.center, source.center) {
        (Some(c), Some(s)) => c.x == unit_clamped(s.x) && c.y == unit_clamped(s.y),
        (None, None) => true,
        _ => false,
    }
    &&& match (clamped.keyframes, source.keyframes) {
        (Some(c), Some(s)) => {
            &&& c.position@.len() == s.position@.len()
            &&& forall|i: int|
                0 <= i < s.position@.len() ==> #[trigger] c.position@[i] == (ImportVectorKeyframe {
                    time: s.position@[i].time,
                    x: unit_clamped(s.position@[i].x),
                    y: unit_clamped(s.position@[i].y),
                })
            &&& c.opacity@.len() == s.opacity@.len()
            &&& forall|i: int|
                0 <= i < s.opacity@.len() ==> #[trigger] c.opacity@[i] == (ImportScalarKeyframe {
                    time: s.opacity@[i].time,
                    value: unit_clamped(s.opacity@[i].value),
                })
        },
        (None, None) => true,
        _ => false,
    }
}

/// Whether `clamped` is the description `source` with every text segment
/// clamped.
pub open spec fn is_clamped_import(clamped: TimelineImport, source: TimelineImport) -> bool {
    &&& clamped.version@ == source.version@
    &&& clamped.scene_changes@ == source.scene_changes@
    &&& clamped.text_segments@.len() == source.text_segments@.len()
    &&& forall|i: int|
        0 <= i < source.text_segments@.len() ==> is_clamped_segment(
            #[trigger] clamped.text_segments@[i],
            source.text_segments@[i],
        )
}

proof fn lemma_same_position_times(
    a: Seq<ImportVectorKeyframe>,
    b: Seq<ImportVectorKeyframe>,
    from: int,
)
    requires
        a.len() == b.len(),
        forall|i: int| 0 <= i < a.len() ==> (#[trigger] a[i]).time == b[i].time,
    ensures
        negative_position_time(a, from) == negative_position_time(b, from),
    decreases a.len() - from,
{
    if 0 <= from < a.len() {
        lemma_same_position_times(a, b, from + 1);
    }
}

proof fn lemma_same_opacity_times(
    a: Seq<ImportScalarKeyframe>,
    b: Seq<ImportScalarKeyframe>,
    from: int,
)
    requires
        a.len() == b.len(),
        forall|i: int| 0 <= i < a.len() ==> (#[trigger] a[i]).time == b[i].time,
    ensures
        negative_opacity_time(a, from) == negative_opacity_time(b, from),
    decreases a.len() - from,
{
    if 0 <= from < a.len() {
        lemma_same_opacity_times(a, b, from + 1);
    }
}

proof fn lemma_clamped_segment_has_same_fault(
    clamped: ImportTextSegment,
    source: ImportTextSegment,
    index: int,
)
    requires
        is_clamped_segment(clamped, source),
    ensures
        segment_fault(clamped, index) == segment_fault(source, index),
{
    match (clamped.keyframes, source.keyframes) {
        (Some(c), Some(s)) => {
            lemma_same_position_times(c.position@, s.position@, 0);
            lemma_same_opacity_times(c.opacity@, s.opacity@, 0);
        },
        _ => {},
    }
}

proof fn lemma_clamped_segments_have_same_fault(
    clamped: Seq<ImportTextSegment>,
    source: Seq<ImportTextSegment>,
    from: int,
)
    requires
        clamped.len() == source.len(),
        forall|i: int| 0 <= i < source.len() ==> is_clamped_segment(#[trigger] clamped[i], source[i]),
    ensures
        segments_fault(clamped, from) == segments_fault(source, from),
    decreases source.len() - from,
{
    if 0 <= from < source.len() {
        lemma_clamped_segment_has_same_fault(clamped[from], source[from], from);
        lemma_clamped_segments_have_same_fault(clamped, source, from + 1);
    }
}

proof fn lemma_no_position_warnings(index: int, keys: Seq<ImportVectorKeyframe>, upto: int)
    requires
        0 <= upto <= keys.len(),
        forall|i: int| 0 <= i < keys.len() ==> in_unit((#[trigger] keys[i]).x) && in_unit(keys[i].y),
    ensures
        position_warnings(index, keys, upto) =~= Seq::<Seq<char>>::empty(),
    decreases upto,
{
    if upto > 0 {
        lemma_no_position_warnings(index, keys, upto - 1);
    }
}

proof fn lemma_no_opacity_warnings(index: int, keys: Seq<ImportScalarKeyframe>, upto: int)
    requires
        0 <= upto <= keys.len(),
        forall|i: int| 0 <= i < keys.len() ==> in_unit((#[trigger] keys[i]).value),
    ensures
        opacity_warnings(index, keys, upto) =~= Seq::<Seq<char>>::empty(),
    decreases upto,
{
    if upto > 0 {
        lemma_no_opacity_warnings(index, keys, upto - 1);
    }
}

proof fn lemma_clamped_segment_has_no_warnings(
    clamped: ImportTextSegment,
    source: ImportTextSegment,
    index: int,
)
    requires
        is_clamped_segment(clamped, source),
    ensures
        segment_warnings(clamped, index) =~= Seq::<Seq<char>>::empty(),
{
    match (clamped.keyframes, source.keyframes) {
        (Some(c), Some(s)) => {
            assert forall|i: int| 0 <= i < c.position@.len() implies in_unit(
                (#[trigger] c.position@[i]).x,
            ) && in_unit(c.position@[i].y) by {
                assert(c.position@[i].x == unit_clamped(s.position@[i].x));
            }
            assert forall|i: int| 0 <= i < c.opacity@.len() implies in_unit(
                (#[trigger] c.opacity@[i]).value,
            ) by {
                assert(c.opacity@[i].value == unit_clamped(s.opacity@[i].value));
            }
            lemma_no_position_warnings(index, c.position@, c.position@.len() as int);
            lemma_no_opacity_warnings(index, c.opacity@, c.opacity@.len() as int);
        },
        _ => {},
    }
}

proof fn lemma_clamped_segments_have_no_warnings(
    clamped: Seq<ImportTextSegment>,
    source: Seq<ImportTextSegment>,
    upto: int,
)
    requires
        clamped.len() == source.len(),
        0 <= upto <= source.len(),
        forall|i: int| 0 <= i < source.len() ==> is_clamped_segment(#[trigger] clamped[i], source[i]),
    ensures
        segments_warnings(clamped, upto) =~= Seq::<Seq<char>>::empty(),
    decreases upto,
{
    if upto > 0 {
        lemma_clamped_segments_have_no_warnings(clamped, source, upto - 1);
        lemma_clamped_segment_has_no_warnings(clamped[upto - 1], source[upto - 1], upto - 1);
    }
}

/// A description that has passed validation passes it again once its
/// values are clamped as the warnings say, and then without any warning.
pub proof fn lemma_clamped_import_passes(clamped: TimelineImport, source: TimelineImport)
    requires
        import_fault(source) is None,
        is_clamped_import(clamped, source),
    ensures
        import_fault(clamped) is None,
        segments_warnings(clamped.text_segments@, clamped.text_segments@.len() as int)
            == Seq::<Seq<char>>::empty(),
{
    lemma_clamped_segments_have_same_fault(clamped.text_segments@, source.text_segments@, 0);
    lemma_clamped_segments_have_no_warnings(
        clamped.text_segments@,
        source.text_segments@,
        source.text_segments@.len() as int,
    );
}

} // verus!
