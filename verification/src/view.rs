pub mod cmdbar;
pub mod forest;
pub mod forest_view;
pub mod statusbar;

use vstd::prelude::*;

use crate::model::LoadState;

verus! {

/// `a - b`, or 0 where `b` exceeds `a`.
pub open spec fn sat_sub(a: int, b: int) -> int {
    if a > b {
        a - b
    } else {
        0
    }
}

/// The first line shown of a list of `list_size` lines in an area of
/// `area_height` lines: the line at `index` as near the middle as the list
/// allows, without empty lines at the bottom.
pub open spec fn scroll_start(area_height: int, list_size: int, index: int) -> int {
    let centered = sat_sub(index, area_height / 2);
    let max_start = sat_sub(list_size, area_height);
    if centered < max_start {
        centered
    } else {
        max_start
    }
}

/// Start index and indicators used for scrolling through a list.
pub struct ScrollInfo {
    pub start: usize,
    pub more_above: bool,
    pub more_below: bool,
}

/// Where to start showing a list of `list_size` lines in an area of
/// `area_height` lines so that the line at `index` stays visible, and whether
/// lines are hidden above or below.
pub fn compute_scroll_info(area_height: usize, list_size: usize, index: usize) -> (res: ScrollInfo)
    ensures
        res.start == scroll_start(area_height as int, list_size as int, index as int),
        res.more_above == (res.start > 0),
        res.more_below == (res.start < sat_sub(list_size as int, area_height as int)),
{
    let centered = index.saturating_sub(area_height / 2);
    let max_start = list_size.saturating_sub(area_height);
    let start = if centered < max_start {
        centered
    } else {
        max_start
    };
    ScrollInfo { start, more_above: start > 0, more_below: start < max_start }
}

/// The line shown at the top or bottom of a scrolling area: an ellipsis when
/// there is more to scroll in that direction.
pub fn scroll_hint(more: bool) -> (res: &'static str)
    ensures
        more ==> res@ == " ..."@,
        !more ==> res@ == ""@,
{
    if more {
        " ..."
    } else {
        ""
    }
}

/// The lines of the file list that fit in the area: `[start, end)`, the
/// position of the selected file among them, and whether files are hidden
/// above or below.
pub struct LoadWindow {
    pub start: usize,
    pub end: usize,
    pub selected: usize,
    pub more_above: bool,
    pub more_below: bool,
}

/// The part of the file list of `load_state` shown in an area of
/// `area_height` lines, kept around the selected file.
pub fn load_window(load_state: &LoadState, area_height: usize) -> (res: LoadWindow)
    ensures
        ({
            let n = load_state.files@.len() as int;
            let start = scroll_start(area_height as int, n, load_state.index as int);
            &&& res.start == start
            &&& res.end == (if start + area_height < n {
                start + area_height
            } else {
                n
            })
            &&& res.selected == load_state.index - start
            &&& res.more_above == (start > 0)
            &&& res.more_below == (start < sat_sub(n, area_height as int))
        }),
{
    let size = load_state.files.len();
    let index = load_state.index;
    let ScrollInfo { start, more_above, more_below } = compute_scroll_info(area_height, size, index);
    let end = if area_height < size - start {
        start + area_height
    } else {
        size
    };
    LoadWindow { start, end, selected: index - start, more_above, more_below }
}

/// The visible lines `[start, start + area_height)` hold the line at `index`
/// whenever that line exists, and leave no empty line at the bottom when the
/// list fills the area.
pub proof fn law_scroll_shows_index(area_height: int, list_size: int, index: int)
    requires
        area_height > 0,
        0 <= index < list_size,
    ensures
        0 <= scroll_start(area_height, list_size, index) <= index,
        index < scroll_start(area_height, list_size, index) + area_height,
        area_height <= list_size ==> scroll_start(area_height, list_size, index) + area_height
            <= list_size,
{
}

} // verus!
