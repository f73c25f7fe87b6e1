//! Overlays: the scene and text segments that an overlay with its items
//! stands for, and their merge into a timeline.

use vstd::prelude::*;
use vstd::string::StringExecFns;
use crate::decimal::{decimal, push_decimal};
use crate::fixed::{minus, minus_spec, plus, plus_spec, Fixed, ONE};
use crate::project::{
    SceneMode, SceneSegment, TextKeyframes, TextScalarKeyframe, TextSegment, TextVectorKeyframe, XY,
};
use crate::text::{sort_order, sorted_order};

verus! {

/// An item slides and fades in over 0.3 s.
pub const ANIMATION_DURATION: Fixed = 300_000_000;

/// Items slide in from 0.15 to the left of their place.
pub const SLIDE_OFFSET_X: Fixed = 150_000_000;

pub const TITLE_FONT_SIZE: Fixed = 64_000_000_000;

pub const BULLET_FONT_SIZE: Fixed = 40_000_000_000;

/// The height of the first bullet or number: 0.25.
pub const FIRST_ITEM_Y: Fixed = 250_000_000;

/// The distance from one bullet or number to the next: 0.12.
pub const ITEM_Y_SPACING: Fixed = 120_000_000;

/// Bullets and numbers are centered at 0.25 across.
pub const LEFT_ALIGN_X: Fixed = 250_000_000;

pub const CENTER_X: Fixed = 500_000_000;

pub const CENTER_Y: Fixed = 500_000_000;

pub const TEXT_WIDTH: Fixed = 350_000_000;

pub const TEXT_HEIGHT: Fixed = 150_000_000;

pub const OVERLAY_FONT_WEIGHT: Fixed = 700_000_000_000;

/// How an overlay composes the frame.
#[derive(Clone, Copy, Debug, PartialEq, Eq, Structural)]
pub enum OverlayType {
    Split,
    FullScreen,
}

/// How an item of an overlay is set.
#[derive(Clone, Copy, Debug, PartialEq, Eq, Structural)]
pub enum OverlayItemStyle {
    Title,
    Bullet,
    Numbered,
}

/// A text of an overlay; it appears `delay` seconds into the overlay.
#[derive(Clone, Debug)]
pub struct OverlayItem {
    pub delay: Fixed,
    pub content: String,
    pub style: OverlayItemStyle,
}

/// A span of the timeline with texts that appear one after the other.
#[derive(Clone, Debug)]
pub struct OverlaySegment {
    pub start: Fixed,
    pub end: Fixed,
    pub overlay_type: OverlayType,
    pub items: Vec<OverlayItem>,
}

/// An item that would appear only when its overlay is over.
#[derive(Clone, Copy, Debug, PartialEq, Eq, Structural)]
pub struct OverlayWarning {
    pub overlay_index: usize,
    pub item_index: usize,
    pub delay: Fixed,
    pub segment_duration: Fixed,
}

/// The scene segment of an overlay: the screen beside the camera for a
/// split overlay, the default scene for a full-screen one.
pub open spec fn scene_of(overlay: OverlaySegment) -> SceneSegment {
    SceneSegment {
        start: overlay.start,
        end: overlay.end,
        mode: match overlay.overlay_type {
            OverlayType::Split => SceneMode::SplitScreenRight,
            OverlayType::FullScreen => SceneMode::Default,
        },
    }
}

/// The scene segments of overlays, one for each.
pub fn generate_scene_segments(overlays: &[OverlaySegment]) -> (scenes: Vec<SceneSegment>)
    ensures
        scenes@.len() == overlays@.len(),
        forall|i: int| 0 <= i < overlays@.len() ==> #[trigger] scenes@[i] == scene_of(overlays@[i]),
{
    let n: usize = overlays.len();
    let mut scenes: Vec<SceneSegment> = Vec::new();
    let mut i: usize = 0;
    while i < n
        invariant
            n == overlays@.len(),
            i <= n,
            scenes@.len() == i,
            forall|k: int| 0 <= k < i ==> #[trigger] scenes@[k] == scene_of(overlays@[k]),
        decreases n - i,
    {
        let overlay: &OverlaySegment = &overlays[i];
        let mode = match overlay.overlay_type {
            OverlayType::Split => SceneMode::SplitScreenRight,
            OverlayType::FullScreen => SceneMode::Default,
        };
        scenes.push(SceneSegment { start: overlay.start, end: overlay.end, mode });
        i = i + 1;
    }
    scenes
}

/// The length of an overlay.
pub open spec fn duration_of(overlay: OverlaySegment) -> Fixed {
    minus_spec(overlay.end as int, overlay.start as int) as Fixed
}

/// Whether the item appears only when its overlay is over.
pub open spec fn is_late(overlay: OverlaySegment, item: OverlayItem) -> bool {
    item.delay >= duration_of(overlay)
}

/// The warnings for the first `upto` items of an overlay.
pub open spec fn item_warnings(overlay: OverlaySegment, overlay_index: int, upto: int) -> Seq<
    OverlayWarning,
>
    decreases upto,
{
    if upto <= 0 || upto > overlay.items@.len() {
        Seq::empty()
    } else {
        let rest = item_warnings(overlay, overlay_index, upto - 1);
        if is_late(overlay, overlay.items@[upto - 1]) {
            rest.push(
                OverlayWarning {
                    overlay_index: overlay_index as usize,
                    item_index: (upto - 1) as usize,
                    delay: overlay.items@[upto - 1].delay,
                    segment_duration: duration_of(overlay),
                },
            )
        } else {
            rest
        }
    }
}

/// The warnings for the first `upto` overlays, in the order of overlays
/// and items.
pub open spec fn overlay_warnings(overlays: Seq<OverlaySegment>, upto: int) -> Seq<OverlayWarning>
    decreases upto,
{
    if upto <= 0 || upto > overlays.len() {
        Seq::empty()
    } else {
        overlay_warnings(overlays, upto - 1) + item_warnings(
            overlays[upto - 1],
            upto - 1,
            overlays[upto - 1].items@.len() as int,
        )
    }
}

/// The number of items of the first `upto` overlays.
pub open spec fn item_count(overlays: Seq<OverlaySegment>, upto: int) -> int
    decreases upto,
{
    if upto <= 0 || upto > overlays.len() {
        0
    } else {
        item_count(overlays, upto - 1) + overlays[upto - 1].items@.len()
    }
}

/// The text of an item as it is shown: a title as it is, a bullet behind a
/// bullet sign, a numbered item behind its number, counted from one.
pub open spec fn shown_content(content: Seq<char>, style: OverlayItemStyle, item_index: int) -> Seq<
    char,
> {
    match style {
        OverlayItemStyle::Title => content,
        OverlayItemStyle::Bullet => "\u{2022} "@ + content,
        OverlayItemStyle::Numbered => decimal((item_index + 1) as nat) + ". "@ + content,
    }
}

/// Where an item stands: a title in the middle of the frame, bullets and
/// numbers one below the other from 0.25 down.
pub open spec fn item_center(style: OverlayItemStyle, item_index: int) -> (int, int) {
    match style {
        OverlayItemStyle::Title => (CENTER_X as int, CENTER_Y as int),
        _ => (LEFT_ALIGN_X as int, item_height(item_index)),
    }
}

/// The height of the bullet or number at `item_index`, held within the
/// scalar's range.
pub open spec fn item_height(item_index: int) -> int {
    let y = FIRST_ITEM_Y as int + item_index * ITEM_Y_SPACING as int;
    if y > i64::MAX {
        i64::MAX as int
    } else {
        y
    }
}

/// The font size of an item.
pub open spec fn item_font_size(style: OverlayItemStyle) -> Fixed {
    match style {
        OverlayItemStyle::Title => TITLE_FONT_SIZE,
        _ => BULLET_FONT_SIZE,
    }
}

/// Whether `segment` is the text segment of item number `item_index` of
/// `overlay`: it lasts from the item's appearance to the overlay's end,
/// and slides and fades in over the first 0.3 s of that time.
pub open spec fn is_item_text(
    segment: TextSegment,
    overlay: OverlaySegment,
    item: OverlayItem,
    item_index: int,
) -> bool {
    let absolute_start = plus_spec(overlay.start as int, item.delay as int);
    let relative_time = minus_spec(absolute_start, overlay.start as int);
    let animation_end = plus_spec(relative_time, ANIMATION_DURATION as int);
    &&& segment.start == absolute_start
    &&& segment.end == overlay.end
    &&& segment.enabled
    &&& segment.content@ == shown_content(item.content@, item.style, item_index)
    &&& segment.center.x == item_center(item.style, item_index).0
    &&& segment.center.y == item_center(item.style, item_index).1
    &&& segment.size == (XY { x: TEXT_WIDTH, y: TEXT_HEIGHT })
    &&& segment.font_family@ == "sans-serif"@
    &&& segment.font_size == item_font_size(item.style)
    &&& segment.font_weight == OVERLAY_FONT_WEIGHT
    &&& !segment.italic
    &&& segment.color@ == "#ffffff"@
    &&& segment.fade_duration == 0
    &&& segment.keyframes.position@ == seq![
        TextVectorKeyframe { time: 0, x: -SLIDE_OFFSET_X as Fixed, y: CENTER_Y },
        TextVectorKeyframe { time: relative_time as Fixed, x: -SLIDE_OFFSET_X as Fixed, y: CENTER_Y },
        TextVectorKeyframe { time: animation_end as Fixed, x: 0, y: CENTER_Y },
    ]
    &&& segment.keyframes.opacity@ == seq![
        TextScalarKeyframe { time: 0, value: 0 },
        TextScalarKeyframe { time: relative_time as Fixed, value: 0 },
        TextScalarKeyframe { time: animation_end as Fixed, value: ONE },
    ]
}

fn get_position_and_size(style: &OverlayItemStyle, item_index: usize) -> (r: (XY<Fixed>, Fixed))
    ensures
        r.0.x == item_center(*style, item_index as int).0,
        r.0.y == item_center(*style, item_index as int).1,
        r.1 == item_font_size(*style),
{
    match style {
        OverlayItemStyle::Title => (XY::new(CENTER_X, CENTER_Y), TITLE_FONT_SIZE),
        OverlayItemStyle::Bullet | OverlayItemStyle::Numbered => {
            let index: i128 = item_index as i128;
            assert(index * 120_000_000 <= 0xffff_ffff_ffff_ffff * 120_000_000) by (nonlinear_arith)
                requires
                    0 <= index <= 0xffff_ffff_ffff_ffff,
            ;
            let y: i128 = 250_000_000 + index * 120_000_000;
            let y: Fixed = if y > i64::MAX as i128 {
                i64::MAX
            } else {
                y as i64
            };
            (XY::new(LEFT_ALIGN_X, y), BULLET_FONT_SIZE)
        },
    }
}

fn format_content(content: &str, style: &OverlayItemStyle, item_index: usize) -> (shown: String)
    requires
        item_index < usize::MAX,
    ensures
        shown@ == shown_content(content@, *style, item_index as int),
{
    match style {
        OverlayItemStyle::Title => String::from_str(content),
        OverlayItemStyle::Bullet => {
            let mut shown = String::from_str("\u{2022} ");
            shown.append(content);
            shown
        },
        OverlayItemStyle::Numbered => {
            let mut shown = String::new();
            push_decimal(&mut shown, item_index as u64 + 1);
            shown.append(". ");
            shown.append(content);
            assert(shown@ =~= shown_content(content@, *style, item_index as int));
            shown
        },
    }
}

fn create_animation_keyframes(absolute_start: Fixed, overlay_start: Fixed) -> (keyframes:
    TextKeyframes)
    ensures
        keyframes.position@ == seq![
            TextVectorKeyframe { time: 0, x: -SLIDE_OFFSET_X as Fixed, y: CENTER_Y },
            TextVectorKeyframe {
                time: minus_spec(absolute_start as int, overlay_start as int) as Fixed,
                x: -SLIDE_OFFSET_X as Fixed,
                y: CENTER_Y,
            },
            TextVectorKeyframe {
                time: plus_spec(
                    minus_spec(absolute_start as int, overlay_start as int),
                    ANIMATION_DURATION as int,
                ) as Fixed,
                x: 0,
                y: CENTER_Y,
            },
        ],
        keyframes.opacity@ == seq![
            TextScalarKeyframe { time: 0, value: 0 },
            TextScalarKeyframe {
                time: minus_spec(absolute_start as int, overlay_start as int) as Fixed,
                value: 0,
            },
            TextScalarKeyframe {
                time: plus_spec(
                    minus_spec(absolute_start as int, overlay_start as int),
                    ANIMATION_DURATION as int,
                ) as Fixed,
                value: ONE,
            },
        ],
{
    let relative_time: Fixed = minus(absolute_start, overlay_start);
    let animation_end: Fixed = plus(relative_time, ANIMATION_DURATION);
    let mut position: Vec<TextVectorKeyframe> = Vec::new();
    position.push(TextVectorKeyframe { time: 0, x: -SLIDE_OFFSET_X, y: CENTER_Y });
    position.push(TextVectorKeyframe { time: relative_time, x: -SLIDE_OFFSET_X, y: CENTER_Y });
    position.push(TextVectorKeyframe { time: animation_end, x: 0, y: CENTER_Y });
    let mut opacity: Vec<TextScalarKeyframe> = Vec::new();
    opacity.push(TextScalarKeyframe { time: 0, value: 0 });
    opacity.push(TextScalarKeyframe { time: relative_time, value: 0 });
    opacity.push(TextScalarKeyframe { time: animation_end, value: ONE });
    let keyframes = TextKeyframes { position, opacity };
    assert(keyframes.position@.len() == 3 && keyframes.opacity@.len() == 3);
    assert(keyframes.position@ =~= seq![
        TextVectorKeyframe { time: 0, x: -SLIDE_OFFSET_X as Fixed, y: CENTER_Y },
        TextVectorKeyframe { time: relative_time, x: -SLIDE_OFFSET_X as Fixed, y: CENTER_Y },
        TextVectorKeyframe { time: animation_end, x: 0, y: CENTER_Y },
    ]);
    assert(keyframes.opacity@ =~= seq![
        TextScalarKeyframe { time: 0, value: 0 },
        TextScalarKeyframe { time: relative_time, value: 0 },
        TextScalarKeyframe { time: animation_end, value: ONE },
    ]);
    keyframes
}

fn create_text_segment(overlay: &OverlaySegment, item: &OverlayItem, item_index: usize) -> (segment:
    TextSegment)
    requires
        item_index < usize::MAX,
    ensures
        is_item_text(segment, *overlay, *item, item_index as int),
{
    let (center, font_size) = get_position_and_size(&item.style, item_index);
    let absolute_start: Fixed = plus(overlay.start, item.delay);
    let content = format_content(item.content.as_str(), &item.style, item_index);
    let keyframes = create_animation_keyframes(absolute_start, overlay.start);
    TextSegment {
        start: absolute_start,
        end: overlay.end,
        enabled: true,
        content,
        center,
        size: XY::new(TEXT_WIDTH, TEXT_HEIGHT),
        font_family: String::from_str("sans-serif"),
        font_size,
        font_weight: OVERLAY_FONT_WEIGHT,
        italic: false,
        color: String::from_str("#ffffff"),
        fade_duration: 0,
        keyframes,
    }
}

/// The text segments of all items, overlay by overlay, and the warnings
/// for the items that come too late.
pub fn generate_text_segments(overlays: &[OverlaySegment]) -> (r: (
    Vec<TextSegment>,
    Vec<OverlayWarning>,
))
    ensures
        r.0@.len() == item_count(overlays@, overlays@.len() as int),
        forall|i: int, j: int|
            0 <= i < overlays@.len() && 0 <= j < overlays@[i].items@.len() ==> is_item_text(
                #[trigger] r.0@[item_count(overlays@, i) + j],
                #[trigger] overlays@[i],
                overlays@[i].items@[j],
                j,
            ),
        r.1@ == overlay_warnings(overlays@, overlays@.len() as int),
{
    let n: usize = overlays.len();
    let mut text_segments: Vec<TextSegment> = Vec::new();
    let mut warnings: Vec<OverlayWarning> = Vec::new();
    let mut overlay_index: usize = 0;
    while overlay_index < n
        invariant
            n == overlays@.len(),
            overlay_index <= n,
            text_segments@.len() == item_count(overlays@, overlay_index as int),
            forall|i: int, j: int|
                0 <= i < overlay_index && 0 <= j < overlays@[i].items@.len() ==> is_item_text(
                    #[trigger] text_segments@[item_count(overlays@, i) + j],
                    #[trigger] overlays@[i],
                    overlays@[i].items@[j],
                    j,
                ),
            warnings@ == overlay_warnings(overlays@, overlay_index as int),
        decreases n - overlay_index,
    {
        let overlay: &OverlaySegment = &overlays[overlay_index];
        let segment_duration: Fixed = minus(overlay.end, overlay.start);
        let m: usize = overlay.items.len();
        let ghost base = text_segments@.len();
        let ghost warned = warnings@;
        let ghost before = text_segments@;
        let mut item_index: usize = 0;
        while item_index < m
            invariant
                m == overlay.items@.len(),
                item_index <= m,
                overlay_index < n,
                n == overlays@.len(),
                *overlay == overlays@[overlay_index as int],
                segment_duration == duration_of(*overlay),
                base == item_count(overlays@, overlay_index as int),
                base == before.len(),
                text_segments@.len() == base + item_index,
                forall|k: int| 0 <= k < base ==> text_segments@[k] == before[k],
                forall|j: int|
                    0 <= j < item_index ==> is_item_text(
                        #[trigger] text_segments@[base + j],
                        *overlay,
                        overlay.items@[j],
                        j,
                    ),
                warnings@ == warned + item_warnings(
                    *overlay,
                    overlay_index as int,
                    item_index as int,
                ),
            decreases m - item_index,
        {
            let item: &OverlayItem = &overlay.items[item_index];
            if item.delay >= segment_duration {
                warnings.push(
                    OverlayWarning { overlay_index, item_index, delay: item.delay, segment_duration },
                );
            }
            let text_segment = create_text_segment(overlay, item, item_index);
            text_segments.push(text_segment);
            item_index = item_index + 1;
            assert(warnings@ =~= warned + item_warnings(
                *overlay,
                overlay_index as int,
                item_index as int,
            ));
        }
        overlay_index = overlay_index + 1;
        assert(warnings@ =~= overlay_warnings(overlays@, overlay_index as int));
        assert forall|i: int, j: int|
            0 <= i < overlay_index && 0 <= j < overlays@[i].items@.len() implies is_item_text(
            #[trigger] text_segments@[item_count(overlays@, i) + j],
            #[trigger] overlays@[i],
            overlays@[i].items@[j],
            j,
        ) by {
            assert(item_count(overlays@, i + 1) == item_count(overlays@, i)
                + overlays@[i].items@.len());
            if i < overlay_index - 1 {
                lemma_item_count_rises(overlays@, i + 1, overlay_index - 1);
                lemma_item_count_rises(overlays@, 0, i);
                assert(text_segments@[item_count(overlays@, i) + j] == before[item_count(
                    overlays@,
                    i,
                ) + j]);
            }
        }
    }
    (text_segments, warnings)
}

proof fn lemma_item_count_rises(overlays: Seq<OverlaySegment>, a: int, b: int)
    requires
        0 <= a <= b <= overlays.len(),
    ensures
        item_count(overlays, a) <= item_count(overlays, b),
    decreases b - a,
{
    if a < b {
        lemma_item_count_rises(overlays, a, b - 1);
    }
}

/// The warnings for the items that come too late, without the segments.
pub fn validate_overlay_items(overlays: &[OverlaySegment]) -> (warnings: Vec<OverlayWarning>)
    ensures
        warnings@ == overlay_warnings(overlays@, overlays@.len() as int),
{
    let n: usize = overlays.len();
    let mut warnings: Vec<OverlayWarning> = Vec::new();
    let mut overlay_index: usize = 0;
    while overlay_index < n
        invariant
            n == overlays@.len(),
            overlay_index <= n,
            warnings@ == overlay_warnings(overlays@, overlay_index as int),
        decreases n - overlay_index,
    {
        let overlay: &OverlaySegment = &overlays[overlay_index];
        let segment_duration: Fixed = minus(overlay.end, overlay.start);
        let m: usize = overlay.items.len();
        let ghost warned = warnings@;
        let mut item_index: usize = 0;
        while item_index < m
            invariant
                m == overlay.items@.len(),
                item_index <= m,
                segment_duration == duration_of(*overlay),
                warnings@ == warned + item_warnings(
                    *overlay,
                    overlay_index as int,
                    item_index as int,
                ),
            decreases m - item_index,
        {
            let item: &OverlayItem = &overlay.items[item_index];
            if item.delay >= segment_duration {
                warnings.push(
                    OverlayWarning { overlay_index, item_index, delay: item.delay, segment_duration },
                );
            }
            item_index = item_index + 1;
            assert(warnings@ =~= warned + item_warnings(
                *overlay,
                overlay_index as int,
                item_index as int,
            ));
        }
        overlay_index = overlay_index + 1;
        assert(warnings@ =~= overlay_warnings(overlays@, overlay_index as int));
    }
    warnings
}

/// Whether two text segments say the same.
pub open spec fn same_text(a: TextSegment, b: TextSegment) -> bool {
    &&& a.start == b.start
    &&& a.end == b.end
    &&& a.enabled == b.enabled
    &&& a.content@ == b.content@
    &&& a.center == b.center
    &&& a.size == b.size
    &&& a.font_family@ == b.font_family@
    &&& a.font_size == b.font_size
    &&& a.font_weight == b.font_weight
    &&& a.italic == b.italic
    &&& a.color@ == b.color@
    &&& a.fade_duration == b.fade_duration
    &&& a.keyframes.position@ == b.keyframes.position@
    &&& a.keyframes.opacity@ == b.keyframes.opacity@
}

/// The start times of scene segments.
pub open spec fn scene_starts(segments: Seq<SceneSegment>) -> Seq<Fixed> {
    segments.map_values(|s: SceneSegment| s.start)
}

/// The start times of text segments.
pub open spec fn text_starts(segments: Seq<TextSegment>) -> Seq<Fixed> {
    segments.map_values(|s: TextSegment| s.start)
}

fn copy_text(segment: &TextSegment) -> (copy: TextSegment)
    ensures
        same_text(copy, *segment),
{
    let n: usize = segment.keyframes.position.len();
    let mut position: Vec<TextVectorKeyframe> = Vec::new();
    let mut i: usize = 0;
    while i < n
        invariant
            n == segment.keyframes.position@.len(),
            i <= n,
            position@ =~= segment.keyframes.position@.subrange(0, i as int),
        decreases n - i,
    {
        position.push(segment.keyframes.position[i]);
        i = i + 1;
    }
    let m: usize = segment.keyframes.opacity.len();
    let mut opacity: Vec<TextScalarKeyframe> = Vec::new();
    let mut j: usize = 0;
    while j < m
        invariant
            m == segment.keyframes.opacity@.len(),
            j <= m,
            opacity@ =~= segment.keyframes.opacity@.subrange(0, j as int),
        decreases m - j,
    {
        opacity.push(segment.keyframes.opacity[j]);
        j = j + 1;
    }
    assert(position@ =~= segment.keyframes.position@);
    assert(opacity@ =~= segment.keyframes.opacity@);
    TextSegment {
        start: segment.start,
        end: segment.end,
        enabled: segment.enabled,
        content: segment.content.clone(),
        center: XY::new(segment.center.x, segment.center.y),
        size: XY::new(segment.size.x, segment.size.y),
        font_family: segment.font_family.clone(),
        font_size: segment.font_size,
        font_weight: segment.font_weight,
        italic: segment.italic,
        color: segment.color.clone(),
        fade_duration: segment.fade_duration,
        keyframes: TextKeyframes { position, opacity },
    }
}

/// Puts the segments of overlays behind those of a timeline and orders
/// both kinds by their start; segments that start together keep their
/// order.
pub fn merge_with_existing(
    existing_scene_segments: &[SceneSegment],
    existing_text_segments: &[TextSegment],
    overlay_scene_segments: Vec<SceneSegment>,
    overlay_text_segments: Vec<TextSegment>,
) -> (merged: (Vec<SceneSegment>, Vec<TextSegment>))
    ensures
        ({
            let scenes = existing_scene_segments@ + overlay_scene_segments@;
            let order = sorted_order(scene_starts(scenes), scenes.len() as int);
            &&& merged.0@.len() == scenes.len()
            &&& forall|i: int| 0 <= i < scenes.len() ==> #[trigger] merged.0@[i] == scenes[order[i]]
        }),
        ({
            let texts = existing_text_segments@ + overlay_text_segments@;
            let order = sorted_order(text_starts(texts), texts.len() as int);
            &&& merged.1@.len() == texts.len()
            &&& forall|i: int|
                0 <= i < texts.len() ==> same_text(#[trigger] merged.1@[i], texts[order[i]])
        }),
{
    let ghost scenes = existing_scene_segments@ + overlay_scene_segments@;
    let ghost texts = existing_text_segments@ + overlay_text_segments@;
    let scene_count: usize = existing_scene_segments.len();
    let text_count: usize = existing_text_segments.len();
    let mut scene_times: Vec<Fixed> = Vec::new();
    let mut i: usize = 0;
    while i < scene_count
        invariant
            scene_count == existing_scene_segments@.len(),
            i <= scene_count,
            scene_times@ =~= scene_starts(existing_scene_segments@).subrange(0, i as int),
        decreases scene_count - i,
    {
        scene_times.push(existing_scene_segments[i].start);
        i = i + 1;
    }
    let mut i: usize = 0;
    while i < overlay_scene_segments.len()
        invariant
            scene_count == existing_scene_segments@.len(),
            i <= overlay_scene_segments@.len(),
            scene_times@ =~= scene_starts(existing_scene_segments@) + scene_starts(
                overlay_scene_segments@,
            ).subrange(0, i as int),
        decreases overlay_scene_segments@.len() - i,
    {
        scene_times.push(overlay_scene_segments[i].start);
        i = i + 1;
    }
    assert(scene_times@ =~= scene_starts(scenes));
    let scene_order = sort_order(&scene_times);
    let ghost scene_spec_order = scene_order@.map_values(|i: usize| i as int);
    let mut scene_segments: Vec<SceneSegment> = Vec::new();
    let mut i: usize = 0;
    while i < scene_order.len()
        invariant
            scene_count == existing_scene_segments@.len(),
            scenes == existing_scene_segments@ + overlay_scene_segments@,
            scene_order@.len() == scenes.len(),
            scene_spec_order == scene_order@.map_values(|i: usize| i as int),
            scene_spec_order == sorted_order(scene_starts(scenes), scenes.len() as int),
            forall|k: int| 0 <= k < scene_order@.len() ==> #[trigger] scene_order@[k] < scenes.len(),
            i <= scene_order@.len(),
            scene_segments@.len() == i,
            forall|k: int| 0 <= k < i ==> #[trigger] scene_segments@[k] == scenes[scene_spec_order[k]],
        decreases scene_order@.len() - i,
    {
        let at: usize = scene_order[i];
        assert(scene_spec_order[i as int] == at as int);
        let segment: SceneSegment = if at < scene_count {
            existing_scene_segments[at]
        } else {
            overlay_scene_segments[at - scene_count]
        };
        scene_segments.push(segment);
        i = i + 1;
    }
    let mut text_times: Vec<Fixed> = Vec::new();
    let mut i: usize = 0;
    while i < text_count
        invariant
            text_count == existing_text_segments@.len(),
            i <= text_count,
            text_times@ =~= text_starts(existing_text_segments@).subrange(0, i as int),
        decreases text_count - i,
    {
        text_times.push(existing_text_segments[i].start);
        i = i + 1;
    }
    let mut i: usize = 0;
    while i < overlay_text_segments.len()
        invariant
            text_count == existing_text_segments@.len(),
            i <= overlay_text_segments@.len(),
            text_times@ =~= text_starts(existing_text_segments@) + text_starts(
                overlay_text_segments@,
            ).subrange(0, i as int),
        decreases overlay_text_segments@.len() - i,
    {
        text_times.push(overlay_text_segments[i].start);
        i = i + 1;
    }
    assert(text_times@ =~= text_starts(texts));
    let text_order = sort_order(&text_times);
    let ghost text_spec_order = text_order@.map_values(|i: usize| i as int);
    let mut text_segments: Vec<TextSegment> = Vec::new();
    let mut i: usize = 0;
    while i < text_order.len()
        invariant
            text_count == existing_text_segments@.len(),
            texts == existing_text_segments@ + overlay_text_segments@,
            text_order@.len() == texts.len(),
            text_spec_order == text_order@.map_values(|i: usize| i as int),
            text_spec_order == sorted_order(text_starts(texts), texts.len() as int),
            forall|k: int| 0 <= k < text_order@.len() ==> #[trigger] text_order@[k] < texts.len(),
            i <= text_order@.len(),
            text_segments@.len() == i,
            forall|k: int|
                0 <= k < i ==> same_text(#[trigger] text_segments@[k], texts[text_spec_order[k]]),
        decreases text_order@.len() - i,
    {
        let at: usize = text_order[i];
        assert(text_spec_order[i as int] == at as int);
        let segment: TextSegment = if at < text_count {
            copy_text(&existing_text_segments[at])
        } else {
            copy_text(&overlay_text_segments[at - text_count])
        };
        text_segments.push(segment);
        i = i + 1;
    }
    (scene_segments, text_segments)
}

} // verus!
