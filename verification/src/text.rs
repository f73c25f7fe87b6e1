//! Text overlays: colours, keyframe interpolation, and the layout of the
//! text segments that show at a frame.

use vstd::prelude::*;
use crate::fixed::{
    clamp, clamp_spec, lemma_times_fraction, lerp, lerp_spec, max, max_spec, min, min_spec, minus,
    minus_spec, plus, plus_spec, ratio, ratio_spec, times, times_spec, Fixed, ONE,
};
use crate::project::{TextScalarKeyframe, TextSegment, TextVectorKeyframe, XY};

verus! {

/// The height of a text box for which a font size is meant: 0.2.
pub const BASE_TEXT_HEIGHT: Fixed = 200_000_000;

/// No text is set larger than 256 pixels.
pub const MAX_FONT_SIZE_PX: Fixed = 256_000_000_000;

/// Keyframes closer than a millionth of a second count as that far apart.
pub const MIN_KEYFRAME_SPAN: Fixed = 1_000;

/// The frame height that font sizes are given for.
pub const REFERENCE_HEIGHT: i64 = 1080;

/// A text as the renderer draws it. Bounds are left, top, right, bottom in
/// pixels; the colour is red, green, blue, alpha in `[0, 1]`.
#[derive(Clone, Debug)]
pub struct PreparedText {
    pub content: String,
    pub bounds: [Fixed; 4],
    pub color: [Fixed; 4],
    pub font_family: String,
    pub font_size: Fixed,
    pub font_weight: Fixed,
    pub italic: bool,
    pub opacity: Fixed,
}

/// The value of a hexadecimal digit.
pub open spec fn hex_value(c: char) -> Option<int> {
    if '0' <= c <= '9' {
        Some(c as int - '0' as int)
    } else if 'a' <= c <= 'f' {
        Some(c as int - 'a' as int + 10)
    } else if 'A' <= c <= 'F' {
        Some(c as int - 'A' as int + 10)
    } else {
        None
    }
}

/// The number of `#` signs that `text` begins with, counted from `from`.
pub open spec fn leading_hashes(text: Seq<char>, from: int) -> int
    decreases text.len() - from,
{
    if 0 <= from < text.len() && text[from] == '#' {
        leading_hashes(text, from + 1)
    } else {
        from
    }
}

/// The value of the two hexadecimal digits at `at`.
pub open spec fn hex_pair(text: Seq<char>, at: int) -> Option<int> {
    match (hex_value(text[at]), hex_value(text[at + 1])) {
        (Some(high), Some(low)) => Some(high * 16 + low),
        _ => None,
    }
}

/// Red, green and blue of a colour written as six hexadecimal digits, with
/// or without `#` in front; `None` for anything else.
pub open spec fn hex_color(text: Seq<char>) -> Option<(u8, u8, u8)> {
    let at = leading_hashes(text, 0);
    if text.len() - at != 6 {
        None
    } else {
        match (hex_pair(text, at), hex_pair(text, at + 2), hex_pair(text, at + 4)) {
            (Some(r), Some(g), Some(b)) => Some((r as u8, g as u8, b as u8)),
            _ => None,
        }
    }
}

/// A colour channel of eight bits as a share of one.
pub open spec fn channel_share(value: u8) -> Fixed {
    (value as int * ONE as int / 255) as Fixed
}

/// The colour that `text` names, opaque; opaque white where it names none.
pub open spec fn color_of(text: Seq<char>) -> Seq<Fixed> {
    match hex_color(text) {
        Some((r, g, b)) => seq![channel_share(r), channel_share(g), channel_share(b), ONE],
        None => seq![ONE, ONE, ONE, ONE],
    }
}

fn hex_digit(c: char) -> (r: Option<u8>)
    ensures
        match r {
            Some(v) => hex_value(c) == Some(v as int) && v < 16,
            None => hex_value(c) is None,
        },
{
    let code: u32 = c as u32;
    if 0x30 <= code && code <= 0x39 {
        Some((code - 0x30) as u8)
    } else if 0x61 <= code && code <= 0x66 {
        Some((code - 0x61 + 10) as u8)
    } else if 0x41 <= code && code <= 0x46 {
        Some((code - 0x41 + 10) as u8)
    } else {
        None
    }
}

fn parse_pair(text: &str, at: usize) -> (r: Option<u8>)
    requires
        at + 1 < text@.len() <= usize::MAX,
    ensures
        match r {
            Some(v) => hex_pair(text@, at as int) == Some(v as int),
            None => hex_pair(text@, at as int) is None,
        },
{
    match (hex_digit(text.get_char(at)), hex_digit(text.get_char(at + 1))) {
        (Some(high), Some(low)) => Some(high * 16 + low),
        _ => None,
    }
}

/// Reads a colour written as `#RRGGBB`.
pub fn parse_hex_color(hex: &str) -> (r: Option<(u8, u8, u8)>)
    ensures
        r == hex_color(hex@),
{
    let n: usize = hex.unicode_len();
    let mut at: usize = 0;
    while at < n && hex.get_char(at) == '#'
        invariant
            n == hex@.len(),
            at <= n,
            leading_hashes(hex@, 0) == leading_hashes(hex@, at as int),
        decreases n - at,
    {
        at = at + 1;
    }
    if n - at != 6 {
        return None;
    }
    match (parse_pair(hex, at), parse_pair(hex, at + 2), parse_pair(hex, at + 4)) {
        (Some(r), Some(g), Some(b)) => Some((r, g, b)),
        _ => None,
    }
}

fn share_of(value: u8) -> (r: Fixed)
    ensures
        r == channel_share(value),
{
    ((value as i64) * ONE) / 255
}

/// The colour of a text: what `hex` names, opaque, or opaque white.
pub fn parse_color(hex: &str) -> (color: [Fixed; 4])
    ensures
        color@ == color_of(hex@),
{
    let color: [Fixed; 4] = match parse_hex_color(hex) {
        Some((r, g, b)) => [share_of(r), share_of(g), share_of(b), ONE],
        None => [ONE, ONE, ONE, ONE],
    };
    assert(color@ =~= color_of(hex@));
    color
}

/// Where a keyframe with the time `time` goes into `order`: behind every
/// keyframe that is not later, so that keyframes of one time keep their
/// order. `order` lists keyframes by their place in `times`.
pub open spec fn place_of(order: Seq<int>, times: Seq<Fixed>, time: Fixed, from: int) -> int
    decreases order.len() - from,
{
    if from < 0 || from >= order.len() {
        order.len() as int
    } else if times[order[from]] > time {
        from
    } else {
        place_of(order, times, time, from + 1)
    }
}

/// The first `upto` keyframes in the order of their times; keyframes of
/// one time stay in the order they were given in.
pub open spec fn sorted_order(times: Seq<Fixed>, upto: int) -> Seq<int>
    decreases upto,
{
    if upto <= 0 || upto > times.len() {
        Seq::empty()
    } else {
        let rest = sorted_order(times, upto - 1);
        rest.insert(place_of(rest, times, times[upto - 1], 0), upto - 1)
    }
}

/// Whether `order` lists places of `times`.
pub open spec fn is_order_of(order: Seq<int>, times: Seq<Fixed>) -> bool {
    forall|i: int| 0 <= i < order.len() ==> 0 <= #[trigger] order[i] < times.len()
}

/// Whether the times rise along `order`.
pub open spec fn rises(order: Seq<int>, times: Seq<Fixed>) -> bool {
    forall|i: int, j: int|
        0 <= i <= j < order.len() ==> times[#[trigger] order[i]] <= times[#[trigger] order[j]]
}

proof fn lemma_place_of(order: Seq<int>, times: Seq<Fixed>, time: Fixed, from: int)
    requires
        0 <= from <= order.len(),
    ensures
        from <= place_of(order, times, time, from) <= order.len(),
        forall|i: int|
            from <= i < place_of(order, times, time, from) ==> times[#[trigger] order[i]] <= time,
        place_of(order, times, time, from) < order.len() ==> times[order[place_of(
            order,
            times,
            time,
            from,
        )]] > time,
    decreases order.len() - from,
{
    if from < order.len() && times[order[from]] <= time {
        lemma_place_of(order, times, time, from + 1);
    }
}

/// Whether `order` lists each of the first `upto` places exactly once.
pub open spec fn lists_each_once(order: Seq<int>, upto: int) -> bool {
    &&& order.len() == upto
    &&& forall|i: int| 0 <= i < order.len() ==> 0 <= #[trigger] order[i] < upto
    &&& forall|i: int, j: int|
        0 <= i < j < order.len() ==> #[trigger] order[i] != #[trigger] order[j]
}

/// The sorted order lists every keyframe exactly once, and the times rise
/// along it.
pub proof fn lemma_sorted_order(times: Seq<Fixed>, upto: int)
    requires
        0 <= upto <= times.len(),
    ensures
        lists_each_once(sorted_order(times, upto), upto),
        is_order_of(sorted_order(times, upto), times),
        rises(sorted_order(times, upto), times),
    decreases upto,
{
    if upto > 0 {
        lemma_sorted_order(times, upto - 1);
        let rest = sorted_order(times, upto - 1);
        let time = times[upto - 1];
        let p = place_of(rest, times, time, 0);
        lemma_place_of(rest, times, time, 0);
        let order = sorted_order(times, upto);
        assert(order == rest.insert(p, upto - 1));
        assert forall|i: int, j: int| 0 <= i <= j < order.len() implies times[#[trigger] order[i]]
            <= times[#[trigger] order[j]] by {
            let a = if i < p {
                i
            } else {
                i - 1
            };
            let b = if j < p {
                j
            } else {
                j - 1
            };
            if i != p && j != p {
                assert(order[i] == rest[a] && order[j] == rest[b]);
                assert(times[rest[a]] <= times[rest[b]]);
            } else if i == p && j != p {
                assert(order[j] == rest[b]);
                assert(times[rest[p]] <= times[rest[b]]);
            } else if i != p && j == p {
                assert(order[i] == rest[a]);
            }
        }
        assert forall|i: int, j: int| 0 <= i < j < order.len() implies #[trigger] order[i]
            != #[trigger] order[j] by {
            let a = if i < p {
                i
            } else {
                i - 1
            };
            let b = if j < p {
                j
            } else {
                j - 1
            };
            if i != p && j != p {
                assert(order[i] == rest[a] && order[j] == rest[b]);
            } else if i == p {
                assert(order[j] == rest[b]);
            } else {
                assert(order[i] == rest[a]);
            }
        }
        assert forall|i: int| 0 <= i < order.len() implies 0 <= #[trigger] order[i] < upto by {
            if i != p {
                let a = if i < p {
                    i
                } else {
                    i - 1
                };
                assert(order[i] == rest[a]);
            }
        }
    }
}

/// The keyframes' places in `times`, in the order of their times.
pub fn sort_order(times: &Vec<Fixed>) -> (order: Vec<usize>)
    ensures
        order@.len() == times@.len(),
        order@.map_values(|i: usize| i as int) == sorted_order(times@, times@.len() as int),
        forall|i: int| 0 <= i < order@.len() ==> #[trigger] order@[i] < times@.len(),
{
    let n: usize = times.len();
    let mut order: Vec<usize> = Vec::new();
    let mut k: usize = 0;
    while k < n
        invariant
            n == times@.len(),
            k <= n,
            order@.len() == k,
            order@.map_values(|i: usize| i as int) == sorted_order(times@, k as int),
            forall|i: int| 0 <= i < order@.len() ==> #[trigger] order@[i] < times@.len(),
        decreases n - k,
    {
        let time: Fixed = times[k];
        let ghost rest = order@.map_values(|i: usize| i as int);
        let mut p: usize = 0;
        while p < order.len() && times[order[p]] <= time
            invariant
                n == times@.len(),
                k < n,
                order@.len() == k,
                p <= order@.len(),
                rest == order@.map_values(|i: usize| i as int),
                forall|i: int| 0 <= i < order@.len() ==> #[trigger] order@[i] < times@.len(),
                place_of(rest, times@, time, 0) == place_of(rest, times@, time, p as int),
            decreases order@.len() - p,
        {
            p = p + 1;
        }
        order.insert(p, k);
        assert(order@.map_values(|i: usize| i as int) =~= rest.insert(p as int, k as int));
        k = k + 1;
    }
    order
}

/// The first place from `from` on at which `time` lies between a keyframe
/// and the next, both ends counted, along `order`.
pub open spec fn bracket_of(order: Seq<int>, times: Seq<Fixed>, time: Fixed, from: int) -> Option<
    int,
>
    decreases order.len() - from,
{
    if from < 0 || from + 1 >= order.len() {
        None
    } else if time >= times[order[from]] && time <= times[order[from + 1]] {
        Some(from)
    } else {
        bracket_of(order, times, time, from + 1)
    }
}

/// How far `time` has come from a keyframe at `prev` to one at `next`, as a
/// share of one.
pub open spec fn span_share(prev: Fixed, next: Fixed, time: Fixed) -> int {
    let span = max_spec(minus_spec(next as int, prev as int), MIN_KEYFRAME_SPAN as int);
    clamp_spec(ratio_spec(minus_spec(time as int, prev as int), span), 0, ONE as int)
}

/// The times of scalar keyframes.
pub open spec fn scalar_times(keys: Seq<TextScalarKeyframe>) -> Seq<Fixed> {
    keys.map_values(|k: TextScalarKeyframe| k.time)
}

/// The times of vector keyframes.
pub open spec fn vector_times(keys: Seq<TextVectorKeyframe>) -> Seq<Fixed> {
    keys.map_values(|k: TextVectorKeyframe| k.time)
}

/// The value of a scalar keyframe track at `time`: `base` without
/// keyframes; the earliest keyframe's value up to its time; between two
/// keyframes the value in between, in `[0, 1]`; behind the last keyframe
/// its value, in `[0, 1]`.
pub open spec fn scalar_at(base: Fixed, keys: Seq<TextScalarKeyframe>, time: Fixed) -> int {
    let times = scalar_times(keys);
    let order = sorted_order(times, keys.len() as int);
    if keys.len() == 0 {
        base as int
    } else if time <= keys[order[0]].time {
        keys[order[0]].value as int
    } else {
        match bracket_of(order, times, time, 0) {
            Some(i) => {
                let prev = keys[order[i]];
                let next = keys[order[i + 1]];
                clamp_spec(
                    lerp_spec(
                        prev.value as int,
                        next.value as int,
                        span_share(prev.time, next.time, time),
                    ),
                    0,
                    ONE as int,
                )
            },
            None => clamp_spec(keys[order[keys.len() - 1]].value as int, 0, ONE as int),
        }
    }
}

/// The value of a vector keyframe track at `time`, found as that of a
/// scalar track but not limited to `[0, 1]`.
pub open spec fn vector_at(base: XY<Fixed>, keys: Seq<TextVectorKeyframe>, time: Fixed) -> (
    int,
    int,
) {
    let times = vector_times(keys);
    let order = sorted_order(times, keys.len() as int);
    if keys.len() == 0 {
        (base.x as int, base.y as int)
    } else if time <= keys[order[0]].time {
        (keys[order[0]].x as int, keys[order[0]].y as int)
    } else {
        match bracket_of(order, times, time, 0) {
            Some(i) => {
                let prev = keys[order[i]];
                let next = keys[order[i + 1]];
                let t = span_share(prev.time, next.time, time);
                (lerp_spec(prev.x as int, next.x as int, t), lerp_spec(prev.y as int, next.y as int, t))
            },
            None => (keys[order[keys.len() - 1]].x as int, keys[order[keys.len() - 1]].y as int),
        }
    }
}

fn share(prev: Fixed, next: Fixed, time: Fixed) -> (t: Fixed)
    ensures
        t as int == span_share(prev, next, time),
        0 <= t <= ONE,
{
    let span: Fixed = max(minus(next, prev), MIN_KEYFRAME_SPAN);
    clamp(ratio(minus(time, prev), span), 0, ONE)
}

fn find_bracket(order: &Vec<usize>, times: &Vec<Fixed>, time: Fixed) -> (found: Option<usize>)
    requires
        order@.len() == times@.len(),
        forall|i: int| 0 <= i < order@.len() ==> #[trigger] order@[i] < times@.len(),
    ensures
        match found {
            Some(i) => i + 1 < order@.len() && bracket_of(
                order@.map_values(|i: usize| i as int),
                times@,
                time,
                0,
            ) == Some(i as int),
            None => bracket_of(order@.map_values(|i: usize| i as int), times@, time, 0) is None,
        },
{
    let n: usize = order.len();
    let ghost spec_order = order@.map_values(|i: usize| i as int);
    if n < 2 {
        return None;
    }
    let mut i: usize = 0;
    while i < n - 1
        invariant
            2 <= n,
            i <= n - 1,
            n == order@.len(),
            n == times@.len(),
            spec_order == order@.map_values(|i: usize| i as int),
            forall|i: int| 0 <= i < order@.len() ==> #[trigger] order@[i] < times@.len(),
            bracket_of(spec_order, times@, time, 0) == bracket_of(
                spec_order,
                times@,
                time,
                i as int,
            ),
        decreases n - i,
    {
        if time >= times[order[i]] && time <= times[order[i + 1]] {
            return Some(i);
        }
        i = i + 1;
    }
    None
}

/// The value of a scalar keyframe track at `time`.
pub fn interpolate_text_scalar(base: Fixed, keys: &[TextScalarKeyframe], time: Fixed) -> (value:
    Fixed)
    ensures
        value as int == scalar_at(base, keys@, time),
{
    let n: usize = keys.len();
    if n == 0 {
        return base;
    }
    let mut times: Vec<Fixed> = Vec::new();
    let mut k: usize = 0;
    while k < n
        invariant
            n == keys@.len(),
            k <= n,
            times@ =~= scalar_times(keys@).subrange(0, k as int),
        decreases n - k,
    {
        times.push(keys[k].time);
        k = k + 1;
    }
    assert(times@ =~= scalar_times(keys@));
    let order = sort_order(&times);
    let ghost spec_order = order@.map_values(|i: usize| i as int);
    assert(spec_order[0] == order@[0] as int);
    assert(spec_order[n - 1] == order@[n - 1] as int);
    let first: &TextScalarKeyframe = &keys[order[0]];
    if time <= first.time {
        return first.value;
    }
    match find_bracket(&order, &times, time) {
        Some(i) => {
            assert(spec_order[i as int] == order@[i as int] as int);
            assert(spec_order[i + 1] == order@[i + 1] as int);
            let prev: &TextScalarKeyframe = &keys[order[i]];
            let next: &TextScalarKeyframe = &keys[order[i + 1]];
            let t: Fixed = share(prev.time, next.time, time);
            clamp(lerp(prev.value, next.value, t), 0, ONE)
        },
        None => clamp(keys[order[n - 1]].value, 0, ONE),
    }
}

/// The value of a vector keyframe track at `time`.
pub fn interpolate_text_vector(base: XY<Fixed>, keys: &[TextVectorKeyframe], time: Fixed) -> (value:
    XY<Fixed>)
    ensures
        (value.x as int, value.y as int) == vector_at(base, keys@, time),
{
    let n: usize = keys.len();
    if n == 0 {
        return base;
    }
    let mut times: Vec<Fixed> = Vec::new();
    let mut k: usize = 0;
    while k < n
        invariant
            n == keys@.len(),
            k <= n,
            times@ =~= vector_times(keys@).subrange(0, k as int),
        decreases n - k,
    {
        times.push(keys[k].time);
        k = k + 1;
    }
    assert(times@ =~= vector_times(keys@));
    let order = sort_order(&times);
    let ghost spec_order = order@.map_values(|i: usize| i as int);
    assert(spec_order[0] == order@[0] as int);
    assert(spec_order[n - 1] == order@[n - 1] as int);
    let first: &TextVectorKeyframe = &keys[order[0]];
    if time <= first.time {
        return XY::new(first.x, first.y);
    }
    match find_bracket(&order, &times, time) {
        Some(i) => {
            assert(spec_order[i as int] == order@[i as int] as int);
            assert(spec_order[i + 1] == order@[i + 1] as int);
            let prev: &TextVectorKeyframe = &keys[order[i]];
            let next: &TextVectorKeyframe = &keys[order[i + 1]];
            let t: Fixed = share(prev.time, next.time, time);
            XY::new(lerp(prev.x, next.x, t), lerp(prev.y, next.y, t))
        },
        None => {
            let last: &TextVectorKeyframe = &keys[order[n - 1]];
            XY::new(last.x, last.y)
        },
    }
}

/// The smallest size of a text box, as a share of the frame: 0.01.
pub const MIN_TEXT_SIZE: Fixed = 10_000_000;

/// The largest size of a text box, as a share of the frame: 2.
pub const MAX_TEXT_SIZE: Fixed = 2_000_000_000;

/// Font sizes are scaled by at least a quarter.
pub const MIN_SIZE_SCALE: Fixed = 250_000_000;

/// Font sizes are scaled by at most four.
pub const MAX_SIZE_SCALE: Fixed = 4_000_000_000;

/// A number of pixels as a fixed-point scalar.
pub open spec fn pixels(count: u32) -> int {
    count as int * ONE as int
}

/// Whether the segment at `index` shows at `frame_time`: it is enabled and
/// not hidden, and the time lies within it, both ends counted.
pub open spec fn shows(segment: TextSegment, index: int, frame_time: Fixed, hidden: Seq<usize>) -> bool {
    &&& segment.enabled
    &&& !(exists|k: int| 0 <= k < hidden.len() && hidden[k] == index)
    &&& segment.start <= frame_time <= segment.end
}

/// The places of the segments among the first `upto` that show.
pub open spec fn shown(
    segments: Seq<TextSegment>,
    frame_time: Fixed,
    hidden: Seq<usize>,
    upto: int,
) -> Seq<int>
    decreases upto,
{
    if upto <= 0 || upto > segments.len() {
        Seq::empty()
    } else if shows(segments[upto - 1], upto - 1, frame_time, hidden) {
        shown(segments, frame_time, hidden, upto - 1).push(upto - 1)
    } else {
        shown(segments, frame_time, hidden, upto - 1)
    }
}

/// The time since the segment's start, at least zero.
pub open spec fn relative_time(segment: TextSegment, frame_time: Fixed) -> int {
    max_spec(minus_spec(frame_time as int, segment.start as int), 0)
}

/// The center of the text at `frame_time`, within the frame.
pub open spec fn center_of(segment: TextSegment, frame_time: Fixed) -> (int, int) {
    let raw = vector_at(
        segment.center,
        segment.keyframes.position@,
        relative_time(segment, frame_time) as Fixed,
    );
    (clamp_spec(raw.0, 0, ONE as int), clamp_spec(raw.1, 0, ONE as int))
}

/// The extent of a text box in pixels along an axis of `count` pixels: its
/// size, taken within `[0.01, 2]`, of the axis, and at least one pixel.
pub open spec fn extent_of(size: Fixed, count: u32) -> int {
    max_spec(
        times_spec(clamp_spec(size as int, MIN_TEXT_SIZE as int, MAX_TEXT_SIZE as int), pixels(count)),
        ONE as int,
    )
}

/// The lower edge of a text box along an axis: half the extent before the
/// center, and not before the frame.
pub open spec fn low_edge(center: int, extent: int, count: u32) -> int {
    max_spec(minus_spec(times_spec(center, pixels(count)), extent / 2), 0)
}

/// The upper edge: the extent behind the lower edge, and not behind the
/// frame.
pub open spec fn high_edge(low: int, extent: int, count: u32) -> int {
    min_spec(plus_spec(low, extent), pixels(count))
}

/// Left, top, right and bottom of the text in pixels.
pub open spec fn bounds_of(segment: TextSegment, output_size: XY<u32>, frame_time: Fixed) -> Seq<
    Fixed,
> {
    let center = center_of(segment, frame_time);
    let width = extent_of(segment.size.x, output_size.x);
    let height = extent_of(segment.size.y, output_size.y);
    let left = low_edge(center.0, width, output_size.x);
    let top = low_edge(center.1, height, output_size.y);
    seq![
        left as Fixed,
        top as Fixed,
        high_edge(left, width, output_size.x) as Fixed,
        high_edge(top, height, output_size.y) as Fixed,
    ]
}

/// The share of a fade of `fade` seconds that `elapsed` seconds come to, at
/// most one.
pub open spec fn fade_share(elapsed: int, fade: int) -> int {
    min_spec(ratio_spec(max_spec(elapsed, 0), fade), ONE as int)
}

/// The opacity of the text at `frame_time`: that of its opacity keyframes,
/// one without any, times the fade in from the segment's start and the fade
/// out to its end where the segment fades.
pub open spec fn opacity_of(segment: TextSegment, frame_time: Fixed) -> int {
    let keyed = scalar_at(
        ONE,
        segment.keyframes.opacity@,
        relative_time(segment, frame_time) as Fixed,
    );
    let fade = max_spec(segment.fade_duration as int, 0);
    if fade > 0 {
        times_spec(
            keyed,
            times_spec(
                fade_share(minus_spec(frame_time as int, segment.start as int), fade),
                fade_share(minus_spec(segment.end as int, frame_time as int), fade),
            ),
        )
    } else {
        keyed
    }
}

/// The scale of the frame against the height that font sizes are given
/// for: the frame's height over 1080.
pub open spec fn height_scale(height: u32) -> int {
    pixels(height) / REFERENCE_HEIGHT as int
}

/// The scale of a font by the height of its text box against 0.2, within a
/// quarter and four times.
pub open spec fn size_scale_of(segment: TextSegment) -> int {
    let size_y = clamp_spec(segment.size.y as int, MIN_TEXT_SIZE as int, MAX_TEXT_SIZE as int);
    clamp_spec(
        ratio_spec(size_y, BASE_TEXT_HEIGHT as int),
        MIN_SIZE_SCALE as int,
        MAX_SIZE_SCALE as int,
    )
}

/// The font size in pixels: the segment's, scaled by the height of its box
/// and by the frame's height, and at most 256 pixels.
pub open spec fn font_size_of(segment: TextSegment, output_size: XY<u32>) -> int {
    min_spec(
        times_spec(
            times_spec(segment.font_size as int, size_scale_of(segment)),
            height_scale(output_size.y),
        ),
        MAX_FONT_SIZE_PX as int,
    )
}

/// No text is set larger than 256 pixels.
pub proof fn lemma_font_size_is_capped(segment: TextSegment, output_size: XY<u32>)
    ensures
        font_size_of(segment, output_size) <= MAX_FONT_SIZE_PX,
{
}

/// Where the segment's font size is not negative, a higher frame never
/// sets the text smaller.
pub proof fn lemma_font_size_rises_with_height(segment: TextSegment, lower: XY<u32>, higher: XY<u32>)
    requires
        segment.font_size >= 0,
        lower.y <= higher.y,
    ensures
        font_size_of(segment, lower) <= font_size_of(segment, higher) <= MAX_FONT_SIZE_PX,
{
    let one = ONE as int;
    let scaled = times_spec(segment.font_size as int, size_scale_of(segment));
    assert(segment.font_size as int * size_scale_of(segment) >= 0) by (nonlinear_arith)
        requires
            segment.font_size as int >= 0,
            size_scale_of(segment) >= MIN_SIZE_SCALE as int,
    ;
    vstd::arithmetic::div_mod::lemma_div_pos_is_pos(
        segment.font_size as int * size_scale_of(segment),
        one,
    );
    assert(0 <= scaled);
    let low = height_scale(lower.y);
    let high = height_scale(higher.y);
    assert(0 <= pixels(lower.y) <= pixels(higher.y)) by (nonlinear_arith)
        requires
            0 <= lower.y as int <= higher.y as int,
            pixels(lower.y) == lower.y as int * 1_000_000_000,
            pixels(higher.y) == higher.y as int * 1_000_000_000,
    ;
    vstd::arithmetic::div_mod::lemma_div_is_ordered(
        pixels(lower.y),
        pixels(higher.y),
        REFERENCE_HEIGHT as int,
    );
    vstd::arithmetic::div_mod::lemma_div_pos_is_pos(pixels(lower.y), REFERENCE_HEIGHT as int);
    assert(0 <= scaled * low <= scaled * high) by (nonlinear_arith)
        requires
            0 <= scaled,
            0 <= low <= high,
    ;
    vstd::arithmetic::div_mod::lemma_div_is_ordered(scaled * low, scaled * high, one);
    vstd::arithmetic::div_mod::lemma_div_pos_is_pos(scaled * low, one);
}

/// Whether `text` is what `segment` looks like at `frame_time` in a frame
/// of `output_size`.
pub open spec fn is_prepared(
    text: PreparedText,
    segment: TextSegment,
    output_size: XY<u32>,
    frame_time: Fixed,
) -> bool {
    &&& text.content@ == segment.content@
    &&& text.bounds@ == bounds_of(segment, output_size, frame_time)
    &&& text.color@ == color_of(segment.color@)
    &&& text.font_family@ == segment.font_family@
    &&& text.font_size == font_size_of(segment, output_size)
    &&& text.font_weight == segment.font_weight
    &&& text.italic == segment.italic
    &&& text.opacity == opacity_of(segment, frame_time)
}

fn is_hidden(hidden_indices: &[usize], index: usize) -> (r: bool)
    ensures
        r == (exists|k: int| 0 <= k < hidden_indices@.len() && hidden_indices@[k] == index),
{
    let n: usize = hidden_indices.len();
    let mut k: usize = 0;
    while k < n
        invariant
            n == hidden_indices@.len(),
            k <= n,
            forall|j: int| 0 <= j < k ==> hidden_indices@[j] != index,
        decreases n - k,
    {
        if hidden_indices[k] == index {
            return true;
        }
        k = k + 1;
    }
    false
}

fn pixel_count(count: u32) -> (r: Fixed)
    ensures
        r as int == pixels(count),
{
    (count as i64) * ONE
}

fn fade_part(elapsed: Fixed, fade: Fixed) -> (r: Fixed)
    requires
        fade > 0,
    ensures
        r as int == fade_share(elapsed as int, fade as int),
{
    min(ratio(max(elapsed, 0), fade), ONE)
}

fn prepare_text(segment: &TextSegment, output_size: XY<u32>, frame_time: Fixed) -> (text:
    PreparedText)
    ensures
        is_prepared(text, *segment, output_size, frame_time),
{
    let relative_time: Fixed = max(minus(frame_time, segment.start), 0);
    let center_raw = interpolate_text_vector(
        segment.center,
        segment.keyframes.position.as_slice(),
        relative_time,
    );
    let center_x: Fixed = clamp(center_raw.x, 0, ONE);
    let center_y: Fixed = clamp(center_raw.y, 0, ONE);
    let size_x: Fixed = clamp(segment.size.x, MIN_TEXT_SIZE, MAX_TEXT_SIZE);
    let size_y: Fixed = clamp(segment.size.y, MIN_TEXT_SIZE, MAX_TEXT_SIZE);
    let size_scale: Fixed = clamp(ratio(size_y, BASE_TEXT_HEIGHT), MIN_SIZE_SCALE, MAX_SIZE_SCALE);
    let across: Fixed = pixel_count(output_size.x);
    let down: Fixed = pixel_count(output_size.y);
    let width: Fixed = max(times(size_x, across), ONE);
    let height: Fixed = max(times(size_y, down), ONE);
    let half_w: Fixed = width / 2;
    let half_h: Fixed = height / 2;
    let left: Fixed = max(minus(times(center_x, across), half_w), 0);
    let top: Fixed = max(minus(times(center_y, down), half_h), 0);
    let right: Fixed = min(plus(left, width), across);
    let bottom: Fixed = min(plus(top, height), down);
    let keyframe_opacity: Fixed = interpolate_text_scalar(
        ONE,
        segment.keyframes.opacity.as_slice(),
        relative_time,
    );
    let fade_duration: Fixed = max(segment.fade_duration, 0);
    let mut opacity: Fixed = keyframe_opacity;
    if fade_duration > 0 {
        let fade_in: Fixed = fade_part(minus(frame_time, segment.start), fade_duration);
        let fade_out: Fixed = fade_part(minus(segment.end, frame_time), fade_duration);
        opacity = times(opacity, times(fade_in, fade_out));
    }
    let scale_to_frame: Fixed = down / REFERENCE_HEIGHT;
    let font_size: Fixed = min(
        times(times(segment.font_size, size_scale), scale_to_frame),
        MAX_FONT_SIZE_PX,
    );
    let bounds: [Fixed; 4] = [left, top, right, bottom];
    assert(bounds@ =~= bounds_of(*segment, output_size, frame_time));
    PreparedText {
        content: segment.content.clone(),
        bounds,
        color: parse_color(segment.color.as_str()),
        font_family: segment.font_family.clone(),
        font_size,
        font_weight: segment.font_weight,
        italic: segment.italic,
        opacity,
    }
}

/// Lays out the texts of a frame: one for each segment that shows at
/// `frame_time`, in the segments' order.
pub fn prepare_texts(
    output_size: XY<u32>,
    frame_time: Fixed,
    segments: &[TextSegment],
    hidden_indices: &[usize],
) -> (prepared: Vec<PreparedText>)
    ensures
        prepared@.len() == shown(
            segments@,
            frame_time,
            hidden_indices@,
            segments@.len() as int,
        ).len(),
        forall|k: int|
            0 <= k < prepared@.len() ==> is_prepared(
                #[trigger] prepared@[k],
                segments@[shown(segments@, frame_time, hidden_indices@, segments@.len() as int)[k]],
                output_size,
                frame_time,
            ),
        forall|k: int|
            0 <= k < prepared@.len() ==> within_frame((#[trigger] prepared@[k]).bounds@, output_size),
{
    let n: usize = segments.len();
    let mut prepared: Vec<PreparedText> = Vec::new();
    let mut i: usize = 0;
    while i < n
        invariant
            n == segments@.len(),
            i <= n,
            prepared@.len() == shown(segments@, frame_time, hidden_indices@, i as int).len(),
            forall|k: int|
                0 <= k < prepared@.len() ==> is_prepared(
                    #[trigger] prepared@[k],
                    segments@[shown(segments@, frame_time, hidden_indices@, i as int)[k]],
                    output_size,
                    frame_time,
                ),
            forall|k: int|
                0 <= k < prepared@.len() ==> within_frame(
                    (#[trigger] prepared@[k]).bounds@,
                    output_size,
                ),
        decreases n - i,
    {
        let segment: &TextSegment = &segments[i];
        let hidden: bool = is_hidden(hidden_indices, i);
        if segment.enabled && !hidden && !(frame_time < segment.start || frame_time > segment.end) {
            proof {
                lemma_bounds_within_frame(*segment, output_size, frame_time);
            }
            prepared.push(prepare_text(segment, output_size, frame_time));
        }
        i = i + 1;
    }
    prepared
}

proof fn lemma_ratio_not_negative(a: int, d: int)
    requires
        a >= 0,
        d > 0,
    ensures
        ratio_spec(a, d) >= 0,
{
    assert(a * ONE as int >= 0) by (nonlinear_arith)
        requires
            a >= 0,
    ;
    vstd::arithmetic::div_mod::lemma_div_pos_is_pos(a * ONE as int, d);
}

proof fn lemma_edges_within_frame(center: int, extent: int, count: u32)
    requires
        0 <= center <= ONE,
        ONE <= extent <= i64::MAX,
    ensures
        0 <= low_edge(center, extent, count) <= high_edge(
            low_edge(center, extent, count),
            extent,
            count,
        ) <= pixels(count),
{
    assert(0 <= pixels(count) <= 0xffff_ffff * ONE as int) by (nonlinear_arith)
        requires
            0 <= count as int <= 0xffff_ffff,
            pixels(count) == count as int * ONE as int,
    ;
    lemma_times_fraction(pixels(count), center);
    assert(center * pixels(count) == pixels(count) * center) by (nonlinear_arith);
}

/// Whether bounds lie within a frame of `output_size`:
/// `0 <= left <= right <= width` and `0 <= top <= bottom <= height`.
pub open spec fn within_frame(bounds: Seq<Fixed>, output_size: XY<u32>) -> bool {
    &&& bounds.len() == 4
    &&& 0 <= bounds[0] <= bounds[2] <= pixels(output_size.x)
    &&& 0 <= bounds[1] <= bounds[3] <= pixels(output_size.y)
}

/// The bounds of a text lie within the frame, whatever its center, size
/// and keyframes are.
pub proof fn lemma_bounds_within_frame(segment: TextSegment, output_size: XY<u32>, frame_time: Fixed)
    ensures
        within_frame(bounds_of(segment, output_size, frame_time), output_size),
{
    let center = center_of(segment, frame_time);
    let width = extent_of(segment.size.x, output_size.x);
    let height = extent_of(segment.size.y, output_size.y);
    lemma_edges_within_frame(center.0, width, output_size.x);
    lemma_edges_within_frame(center.1, height, output_size.y);
    assert(0 <= pixels(output_size.x) <= i64::MAX && 0 <= pixels(output_size.y) <= i64::MAX)
        by (nonlinear_arith)
        requires
            0 <= output_size.x as int <= 0xffff_ffff,
            0 <= output_size.y as int <= 0xffff_ffff,
            pixels(output_size.x) == output_size.x as int * ONE as int,
            pixels(output_size.y) == output_size.y as int * ONE as int,
    ;
}

/// Whether the opacity keyframes give a value in `[0, 1]` at `time`: only
/// the value of the earliest keyframe is taken as it stands, up to that
/// keyframe's time.
pub open spec fn starts_within_unit(keys: Seq<TextScalarKeyframe>, time: Fixed) -> bool {
    let order = sorted_order(scalar_times(keys), keys.len() as int);
    keys.len() > 0 && time <= keys[order[0]].time ==> 0 <= keys[order[0]].value <= ONE
}

/// The opacity of a text lies in `[0, 1]`, provided its opacity keyframes
/// begin with a value in `[0, 1]`.
pub proof fn lemma_opacity_within_unit(segment: TextSegment, frame_time: Fixed)
    requires
        starts_within_unit(segment.keyframes.opacity@, relative_time(segment, frame_time) as Fixed),
    ensures
        0 <= opacity_of(segment, frame_time) <= ONE,
{
    let keyed = scalar_at(
        ONE,
        segment.keyframes.opacity@,
        relative_time(segment, frame_time) as Fixed,
    );
    assert(0 <= keyed <= ONE);
    let fade = max_spec(segment.fade_duration as int, 0);
    if fade > 0 {
        let since = max_spec(minus_spec(frame_time as int, segment.start as int), 0);
        let until = max_spec(minus_spec(segment.end as int, frame_time as int), 0);
        lemma_ratio_not_negative(since, fade);
        lemma_ratio_not_negative(until, fade);
        let fade_in = fade_share(minus_spec(frame_time as int, segment.start as int), fade);
        let fade_out = fade_share(minus_spec(segment.end as int, frame_time as int), fade);
        lemma_times_fraction(fade_in, fade_out);
        lemma_times_fraction(keyed, times_spec(fade_in, fade_out));
    }
}

} // verus!
