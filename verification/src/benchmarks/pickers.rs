//! The sort picker and column picker popups of the benchmarks tab: their
//! size and the text of each row.

use vstd::prelude::*;
use crate::benchmarks::app::{BenchmarksApp, option_key, option_label};
use crate::benchmarks::schema::{SortKey, SourceFile};
use crate::text::{push_str, string_from_chars, truncate, truncate_spec};

verus! {

/// Popup size `(width, height)` of the sort picker: 30 wide (the area's
/// width when narrower), as tall as its options plus the border (the area's
/// height when lower, but at least 3).
pub open spec fn spec_sort_picker_size(options: nat, area_w: u16, area_h: u16) -> (u16, u16) {
    let want: int = options as int + 2;
    let room: int = if area_h > 3 { area_h as int } else { 3 };
    let h = if want < room { want } else { room };
    (if area_w < 30 { area_w } else { 30 }, h as u16)
}

/// Popup size of the sort picker.
pub fn sort_picker_size(options: usize, area_w: u16, area_h: u16) -> (r: (u16, u16))
    requires
        options < 65534,
    ensures
        r == spec_sort_picker_size(options as nat, area_w, area_h),
{
    let want: u16 = (options as u16) + 2;
    let room: u16 = if area_h > 3 { area_h } else { 3 };
    let h = if want < room { want } else { room };
    (if area_w < 30 { area_w } else { 30 }, h)
}

/// A sort-picker row: the option's label after a space, then an arrow for
/// the direction when it is the active sort.
pub open spec fn spec_sort_option_line(label: Seq<char>, is_active: bool, descending: bool) -> Seq<char> {
    seq![' '] + label + if is_active { seq![' ', if descending { '\u{25bc}' } else { '\u{25b2}' }] } else { Seq::empty() }
}

/// The rows of the sort picker for `file`, in option order.
pub fn sort_picker_lines(file: &SourceFile, active: SortKey, descending: bool) -> (r: Vec<String>)
    ensures
        r@.len() == file.metrics@.len() + 2,
        forall|i: int| 0 <= i < r@.len() ==>
            (#[trigger] r@[i])@ == spec_sort_option_line(option_label(*file, i), option_key(i) == active, descending),
{
    let options = BenchmarksApp::sort_options(file);
    let mut r: Vec<String> = Vec::new();
    let mut i: usize = 0;
    while i < options.len()
        invariant
            i <= options@.len(),
            options@.len() == file.metrics@.len() + 2,
            forall|k: int| 0 <= k < options@.len() ==> (#[trigger] options@[k]).key == option_key(k)
                && options@[k].label@ == option_label(*file, k),
            r@.len() == i,
            forall|k: int| 0 <= k < i ==>
                (#[trigger] r@[k])@ == spec_sort_option_line(option_label(*file, k), option_key(k) == active, descending),
        decreases options.len() - i,
    {
        let mut v: Vec<char> = Vec::new();
        v.push(' ');
        push_str(&mut v, options[i].label.as_str());
        if options[i].key == active {
            v.push(' ');
            v.push(if descending { '\u{25bc}' } else { '\u{25b2}' });
        }
        assert(v@ =~= spec_sort_option_line(option_label(*file, i as int), option_key(i as int) == active, descending));
        r.push(string_from_chars(&v));
        i = i + 1;
    }
    r
}

/// Popup size `(width, height)` of the column picker: up to 50 wide and as
/// tall as the metrics plus the border, keeping two cells of margin on
/// each side of the area.
pub open spec fn spec_column_picker_size(metrics: nat, area_w: u16, area_h: u16) -> (u16, u16) {
    let w_room: int = if area_w > 4 { area_w - 4 } else { 0 };
    let h_room: int = if area_h > 4 { area_h - 4 } else { 0 };
    let want: int = (metrics as int + 2) % 65536;
    ((if 50 < w_room { 50 } else { w_room }) as u16, (if want < h_room { want } else { h_room }) as u16)
}

/// Popup size of the column picker.
pub fn column_picker_size(metrics: usize, area_w: u16, area_h: u16) -> (r: (u16, u16))
    requires
        metrics < usize::MAX - 2,
    ensures
        r == spec_column_picker_size(metrics as nat, area_w, area_h),
{
    let w_room = area_w.saturating_sub(4);
    let h_room = area_h.saturating_sub(4);
    let want: u16 = (metrics + 2) as u16;
    proof {
        let m2: usize = (metrics + 2) as usize;
        assert((m2 as u16) as int == m2 % 65536) by (bit_vector);
    }
    (if 50 < w_room { 50 } else { w_room }, if want < h_room { want } else { h_room })
}

/// A column-picker row: a checkbox, then the metric label cut to
/// `label_w` characters.
pub open spec fn spec_column_line(checked: bool, label: Seq<char>, label_w: nat) -> Seq<char> {
    (if checked { seq!['[', 'x', ']', ' '] } else { seq!['[', ' ', ']', ' '] }) + truncate_spec(label, label_w)
}

/// The rows of the column picker: one per metric of `file`, checked when
/// its index is in `pending`; labels fit a popup `popup_width` wide.
pub fn column_picker_lines(file: &SourceFile, pending: &Vec<usize>, popup_width: u16) -> (r: Vec<String>)
    ensures
        r@.len() == file.metrics@.len(),
        forall|i: int| 0 <= i < r@.len() ==>
            (#[trigger] r@[i])@ == spec_column_line(pending@.contains(i as usize), file.metrics@[i].label@,
                (if popup_width > 7 { popup_width - 7 } else { 0 }) as nat),
{
    let label_w = popup_width.saturating_sub(7) as usize;
    let mut r: Vec<String> = Vec::new();
    let mut i: usize = 0;
    while i < file.metrics.len()
        invariant
            i <= file.metrics@.len(),
            label_w as nat == (if popup_width > 7 { popup_width - 7 } else { 0 }) as nat,
            r@.len() == i,
            forall|k: int| 0 <= k < i ==>
                (#[trigger] r@[k])@ == spec_column_line(pending@.contains(k as usize), file.metrics@[k].label@, label_w as nat),
        decreases file.metrics.len() - i,
    {
        let mut checked = false;
        let mut j: usize = 0;
        while j < pending.len()
            invariant
                j <= pending@.len(),
                checked == (exists|k: int| 0 <= k < j && pending@[k] == i),
            decreases pending.len() - j,
        {
            if pending[j] == i {
                checked = true;
            }
            j = j + 1;
        }
        assert(checked == pending@.contains(i));
        let mut v: Vec<char> = Vec::new();
        v.push('[');
        v.push(if checked { 'x' } else { ' ' });
        v.push(']');
        v.push(' ');
        let t = truncate(file.metrics[i].label.as_str(), label_w);
        push_str(&mut v, t.as_str());
        assert(v@ =~= spec_column_line(checked, file.metrics@[i as int].label@, label_w as nat));
        r.push(string_from_chars(&v));
        i = i + 1;
    }
    r
}

} // verus!
