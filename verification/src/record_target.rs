//! What a "record" request records: the region of the selection, the screen
//! it is recorded on (the one it overlaps most), and the region in that
//! screen's own coordinates.
use vstd::prelude::*;
use crate::geometry::{fits_i32, Rect};
use crate::selection::{choice_measurable, Choice};
use crate::text::str_eq;

verus! {

/// A screen: its name, and its position and size in the global logical
/// coordinate space.
#[derive(Debug)]
pub struct OutputInfo {
    pub name: String,
    pub logical_pos: (i32, i32),
    pub logical_size: (u32, u32),
}

/// A `u32` read as an `i32` (as `as i32` does: values above `i32::MAX`
/// wrap to negative ones).
pub open spec fn wrap_i32(v: u32) -> int {
    if v <= i32::MAX {
        v as int
    } else {
        v - 0x1_0000_0000
    }
}

fn as_i32(v: u32) -> (r: i32)
    ensures
        r == wrap_i32(v),
{
    if v <= i32::MAX as u32 {
        v as i32
    } else {
        let w: i64 = v as i64 - 0x1_0000_0000i64;
        w as i32
    }
}

/// The rectangle `(x, y, width, height)` covers.
pub open spec fn region_rect(region: (i32, i32, u32, u32)) -> Rect {
    Rect {
        left: region.0,
        top: region.1,
        right: (region.0 + wrap_i32(region.2)) as i32,
        bottom: (region.1 + wrap_i32(region.3)) as i32,
    }
}

/// Whether the rectangle of `region` is computed without overflow.
pub open spec fn region_fits(region: (i32, i32, u32, u32)) -> bool {
    fits_i32(region.0 + wrap_i32(region.2)) && fits_i32(region.1 + wrap_i32(region.3))
}

/// The rectangle a screen covers.
pub open spec fn output_rect(o: OutputInfo) -> Rect {
    region_rect((o.logical_pos.0, o.logical_pos.1, o.logical_size.0, o.logical_size.1))
}

/// Whether a screen's rectangle is computed without overflow.
pub open spec fn output_fits(o: OutputInfo) -> bool {
    region_fits((o.logical_pos.0, o.logical_pos.1, o.logical_size.0, o.logical_size.1))
}

/// The area two rectangles share (0 when they do not meet).
pub open spec fn overlap_area(a: Rect, b: Rect) -> int {
    match a.spec_intersect(b) {
        Some(r) => (r.right - r.left) * (r.bottom - r.top),
        None => 0,
    }
}

fn rect_of(region: (i32, i32, u32, u32)) -> (r: Rect)
    requires
        region_fits(region),
    ensures
        r == region_rect(region),
{
    Rect {
        left: region.0,
        top: region.1,
        right: region.0 + as_i32(region.2),
        bottom: region.1 + as_i32(region.3),
    }
}

fn overlap(a: Rect, b: Rect) -> (area: u64)
    ensures
        area == overlap_area(a, b),
{
    match a.intersect(b) {
        Some(r) => {
            let w: u64 = (r.right as i64 - r.left as i64) as u64;
            let h: u64 = (r.bottom as i64 - r.top as i64) as u64;
            assert(w * h <= u64::MAX) by (nonlinear_arith)
                requires
                    0 < w < 0x1_0000_0000,
                    0 < h < 0x1_0000_0000,
            ;
            w * h
        },
        None => 0,
    }
}

/// Screen `i` is the one a region is recorded on: it overlaps the region,
/// no screen overlaps it more, and no later screen overlaps it as much (the
/// last of equal overlaps is taken).
pub open spec fn is_best_output(region: Rect, outputs: Seq<OutputInfo>, i: int) -> bool {
    &&& 0 <= i < outputs.len()
    &&& overlap_area(region, output_rect(outputs[i])) > 0
    &&& forall|j: int|
        0 <= j < outputs.len() ==> #[trigger] overlap_area(region, output_rect(outputs[j]))
            <= overlap_area(region, output_rect(outputs[i]))
    &&& forall|j: int|
        i < j < outputs.len() ==> #[trigger] overlap_area(region, output_rect(outputs[j]))
            < overlap_area(region, output_rect(outputs[i]))
}

/// The screen a region is recorded on: the one it overlaps most (the last
/// of equals); `None` when it overlaps no screen.
pub fn select_record_output(region: (i32, i32, u32, u32), outputs: &Vec<OutputInfo>) -> (r: Option<
    usize,
>)
    requires
        region_fits(region),
        forall|j: int| 0 <= j < outputs@.len() ==> output_fits(#[trigger] outputs@[j]),
    ensures
        r is None <==> forall|j: int|
            0 <= j < outputs@.len() ==> #[trigger] overlap_area(
                region_rect(region),
                output_rect(outputs@[j]),
            ) == 0,
        r matches Some(i) ==> is_best_output(region_rect(region), outputs@, i as int),
{
    let rr = rect_of(region);
    let ghost reg = region_rect(region);
    let mut best: Option<usize> = None;
    let mut best_area: u64 = 0;
    let mut k: usize = 0;
    while k < outputs.len()
        invariant
            rr == reg,
            reg == region_rect(region),
            k <= outputs@.len(),
            forall|j: int| 0 <= j < outputs@.len() ==> output_fits(#[trigger] outputs@[j]),
            best is None ==> best_area == 0 && forall|j: int|
                0 <= j < k ==> #[trigger] overlap_area(reg, output_rect(outputs@[j])) == 0,
            best matches Some(i) ==> {
                &&& i < k
                &&& best_area == overlap_area(reg, output_rect(outputs@[i as int]))
                &&& best_area > 0
                &&& forall|j: int| 0 <= j < k ==> #[trigger] overlap_area(reg, output_rect(outputs@[j])) <= best_area
                &&& forall|j: int| i < j < k ==> #[trigger] overlap_area(reg, output_rect(outputs@[j])) < best_area
            },
        decreases outputs@.len() - k,
    {
        let o = &outputs[k];
        let orect = rect_of((o.logical_pos.0, o.logical_pos.1, o.logical_size.0, o.logical_size.1));
        let area = overlap(rr, orect);
        assert(area == overlap_area(reg, output_rect(outputs@[k as int])));
        if area > 0 && area >= best_area {
            best = Some(k);
            best_area = area;
        }
        k += 1;
    }
    best
}

/// The region moved into a screen's own coordinates and clipped to its
/// right and bottom edges: the offset from the screen's corner (at least
/// 0), the size at most what is left of the screen from there.
pub open spec fn local_region(region: (i32, i32, u32, u32), o: OutputInfo) -> (int, int, int, int) {
    let dx = region.0 - o.logical_pos.0;
    let dy = region.1 - o.logical_pos.1;
    let lx = if dx > 0 {
        dx
    } else {
        0
    };
    let ly = if dy > 0 {
        dy
    } else {
        0
    };
    let room_w = wrap_i32(o.logical_size.0) - lx;
    let room_h = wrap_i32(o.logical_size.1) - ly;
    let room_w = if room_w > 0 {
        room_w
    } else {
        0
    };
    let room_h = if room_h > 0 {
        room_h
    } else {
        0
    };
    (
        lx,
        ly,
        if (region.2 as int) < room_w {
            region.2 as int
        } else {
            room_w
        },
        if (region.3 as int) < room_h {
            region.3 as int
        } else {
            room_h
        },
    )
}

/// Law: the recorded region never grows, starts inside the screen's
/// corner, and (for a screen of size below `i32::MAX`) never reaches past the
/// screen's right or bottom edge when it starts on the screen.
pub proof fn law_local_region_inside_screen(region: (i32, i32, u32, u32), o: OutputInfo)
    requires
        o.logical_size.0 <= i32::MAX,
        o.logical_size.1 <= i32::MAX,
    ensures
        ({
            let r = local_region(region, o);
            &&& 0 <= r.0 && 0 <= r.1
            &&& 0 <= r.2 <= region.2
            &&& 0 <= r.3 <= region.3
            &&& r.0 <= o.logical_size.0 ==> r.0 + r.2 <= o.logical_size.0
            &&& r.1 <= o.logical_size.1 ==> r.1 + r.3 <= o.logical_size.1
        }),
{
}

/// Whether `local_region` is computed without overflow.
pub open spec fn local_region_fits(region: (i32, i32, u32, u32), o: OutputInfo) -> bool {
    let dx = region.0 - o.logical_pos.0;
    let dy = region.1 - o.logical_pos.1;
    &&& fits_i32(dx)
    &&& fits_i32(dy)
    &&& fits_i32(wrap_i32(o.logical_size.0) - (if dx > 0 {
        dx
    } else {
        0
    }))
    &&& fits_i32(wrap_i32(o.logical_size.1) - (if dy > 0 {
        dy
    } else {
        0
    }))
}

/// Move a global region into a screen's coordinates, clipped to the screen.
pub fn localize_region(region: (i32, i32, u32, u32), output: &OutputInfo) -> (r: (i32, i32, u32, u32))
    requires
        local_region_fits(region, *output),
    ensures
        (r.0 as int, r.1 as int, r.2 as int, r.3 as int) == local_region(region, *output),
{
    let dx = region.0 - output.logical_pos.0;
    let dy = region.1 - output.logical_pos.1;
    let lx = if dx > 0 {
        dx
    } else {
        0
    };
    let ly = if dy > 0 {
        dy
    } else {
        0
    };
    let rw = as_i32(output.logical_size.0) - lx;
    let rh = as_i32(output.logical_size.1) - ly;
    let room_w: u32 = if rw > 0 {
        rw as u32
    } else {
        0
    };
    let room_h: u32 = if rh > 0 {
        rh as u32
    } else {
        0
    };
    let w = if region.2 < room_w {
        region.2
    } else {
        room_w
    };
    let h = if region.3 < room_h {
        region.3
    } else {
        room_h
    };
    (lx, ly, w, h)
}

/// The first screen named `name`, from index `i` on.
pub open spec fn find_output_from(outputs: Seq<OutputInfo>, name: Seq<char>, i: int) -> Option<int>
    decreases outputs.len() - i,
{
    if i < 0 || i >= outputs.len() {
        None
    } else if outputs[i].name@ == name {
        Some(i)
    } else {
        find_output_from(outputs, name, i + 1)
    }
}

proof fn lemma_find_output_from(outputs: Seq<OutputInfo>, name: Seq<char>, i: int)
    ensures
        find_output_from(outputs, name, i) matches Some(k) ==> i <= k < outputs.len()
            && outputs[k].name@ == name,
    decreases outputs.len() - i,
{
    if 0 <= i < outputs.len() && outputs[i].name@ != name {
        lemma_find_output_from(outputs, name, i + 1);
    }
}

/// The first screen named `name`.
pub fn find_output(outputs: &Vec<OutputInfo>, name: &str) -> (r: Option<usize>)
    ensures
        match r {
            Some(i) => find_output_from(outputs@, name@, 0) == Some(i as int) && i < outputs@.len(),
            None => find_output_from(outputs@, name@, 0) is None,
        },
{
    proof {
        lemma_find_output_from(outputs@, name@, 0);
    }
    let mut i: usize = 0;
    while i < outputs.len()
        invariant
            i <= outputs@.len(),
            find_output_from(outputs@, name@, 0) == find_output_from(outputs@, name@, i as int),
        decreases outputs@.len() - i,
    {
        if str_eq(outputs[i].name.as_str(), name) {
            return Some(i);
        }
        i += 1;
    }
    None
}

/// The region a selection records, in global coordinates: a non-empty
/// rectangle as it is, a confirmed screen or a chosen window's screen
/// entirely; nothing otherwise (or when the screen is unknown).
pub open spec fn spec_choice_region(choice: Choice, outputs: Seq<OutputInfo>) -> Option<(i32, i32, u32, u32)> {
    match choice {
        Choice::Rectangle(r, _) => if r.spec_width() > 0 && r.spec_height() > 0 {
            Some((r.left, r.top, r.spec_width() as u32, r.spec_height() as u32))
        } else {
            None
        },
        Choice::Output(Some(name)) => match find_output_from(outputs, name@, 0) {
            Some(i) => Some(
                (
                    outputs[i].logical_pos.0,
                    outputs[i].logical_pos.1,
                    outputs[i].logical_size.0,
                    outputs[i].logical_size.1,
                ),
            ),
            None => None,
        },
        Choice::Window(name, Some(_)) => match find_output_from(outputs, name@, 0) {
            Some(i) => Some(
                (
                    outputs[i].logical_pos.0,
                    outputs[i].logical_pos.1,
                    outputs[i].logical_size.0,
                    outputs[i].logical_size.1,
                ),
            ),
            None => None,
        },
        _ => None,
    }
}

fn whole_output(outputs: &Vec<OutputInfo>, name: &str) -> (r: Option<(i32, i32, u32, u32)>)
    ensures
        r == match find_output_from(outputs@, name@, 0) {
            Some(i) => Some(
                (
                    outputs@[i].logical_pos.0,
                    outputs@[i].logical_pos.1,
                    outputs@[i].logical_size.0,
                    outputs@[i].logical_size.1,
                ),
            ),
            None => None::<(i32, i32, u32, u32)>,
        },
{
    match find_output(outputs, name) {
        Some(i) => {
            let o = &outputs[i];
            Some((o.logical_pos.0, o.logical_pos.1, o.logical_size.0, o.logical_size.1))
        },
        None => None,
    }
}

/// The region a selection records, in global coordinates.
pub fn choice_region(choice: &Choice, outputs: &Vec<OutputInfo>) -> (r: Option<(i32, i32, u32, u32)>)
    requires
        choice_measurable(*choice),
    ensures
        r == spec_choice_region(*choice, outputs@),
{
    match choice {
        Choice::Rectangle(r, _) => {
            let w = r.width();
            let h = r.height();
            if w > 0 && h > 0 {
                Some((r.left, r.top, w as u32, h as u32))
            } else {
                None
            }
        },
        Choice::Output(Some(name)) => whole_output(outputs, name.as_str()),
        Choice::Window(name, Some(_)) => whole_output(outputs, name.as_str()),
        _ => None,
    }
}

/// The global index of window `window_index` of screen `name`, from the
/// indices recorded when the capture started (one list per screen name).
pub open spec fn spec_window_global_index(
    indices: Seq<(String, Vec<usize>)>,
    name: Seq<char>,
    window_index: usize,
    from: int,
) -> Option<usize>
    decreases indices.len() - from,
{
    if from < 0 || from >= indices.len() {
        None
    } else if indices[from].0@ == name {
        if window_index < indices[from].1@.len() {
            Some(indices[from].1@[window_index as int])
        } else {
            None
        }
    } else {
        spec_window_global_index(indices, name, window_index, from + 1)
    }
}

/// The global index of a window chosen for recording; `None` when the
/// screen or the window was not seen when the capture started.
pub fn window_global_index(indices: &Vec<(String, Vec<usize>)>, name: &str, window_index: usize) -> (r:
    Option<usize>)
    ensures
        r == spec_window_global_index(indices@, name@, window_index, 0),
{
    let mut k: usize = 0;
    while k < indices.len()
        invariant
            k <= indices@.len(),
            spec_window_global_index(indices@, name@, window_index, 0) == spec_window_global_index(
                indices@,
                name@,
                window_index,
                k as int,
            ),
        decreases indices@.len() - k,
    {
        if str_eq(indices[k].0.as_str(), name) {
            let list = &indices[k].1;
            if window_index < list.len() {
                return Some(list[window_index]);
            } else {
                return None;
            }
        }
        k += 1;
    }
    None
}

/// What a recording records.
#[derive(Debug)]
pub struct RecordTarget {
    /// The screen recorded
    pub output_name: String,
    /// The region, in the screen's coordinates (or global ones when no
    /// screen overlaps it)
    pub region: (i32, i32, u32, u32),
    /// The screen's logical size
    pub logical_size: (u32, u32),
}

/// Where a region is recorded: on the screen it overlaps most, moved into
/// that screen's coordinates; when it overlaps none, on the first screen
/// with the region unchanged (or on an unknown 1920x1080 screen when there
/// is none).
pub fn record_target(region: (i32, i32, u32, u32), outputs: &Vec<OutputInfo>) -> (t: RecordTarget)
    requires
        region_fits(region),
        forall|j: int| 0 <= j < outputs@.len() ==> output_fits(#[trigger] outputs@[j]),
        forall|j: int| 0 <= j < outputs@.len() ==> local_region_fits(region, #[trigger] outputs@[j]),
    ensures
        (exists|i: int| #[trigger] is_best_output(region_rect(region), outputs@, i)) ==> exists|i: int|
            #[trigger] is_best_output(region_rect(region), outputs@, i) && t.output_name@
                == outputs@[i].name@ && (t.region.0 as int, t.region.1 as int, t.region.2 as int, t.region.3 as int)
                == local_region(region, outputs@[i]) && t.logical_size == outputs@[i].logical_size,
        (forall|j: int|
            0 <= j < outputs@.len() ==> #[trigger] overlap_area(region_rect(region), output_rect(outputs@[j])) == 0)
            ==> t.region == region && if outputs@.len() > 0 {
            t.output_name@ == outputs@[0].name@ && t.logical_size == outputs@[0].logical_size
        } else {
            t.output_name@ == "Unknown"@ && t.logical_size == (1920u32, 1080u32)
        },
{
    match select_record_output(region, outputs) {
        Some(i) => {
            assert(is_best_output(region_rect(region), outputs@, i as int));
            assert(i < outputs@.len());
            let o = &outputs[i];
            RecordTarget {
                output_name: o.name.clone(),
                region: localize_region(region, o),
                logical_size: o.logical_size,
            }
        },
        None => {
            if outputs.len() > 0 {
                RecordTarget {
                    output_name: outputs[0].name.clone(),
                    region,
                    logical_size: outputs[0].logical_size,
                }
            } else {
                RecordTarget {
                    output_name: String::from_str("Unknown"),
                    region,
                    logical_size: (1920, 1080),
                }
            }
        },
    }
}

} // verus!
