//! What the form shows in its fields and how a long line of the content
//! field wraps.

use vstd::prelude::*;

use crate::model::task::{priority_text, TaskId};
use crate::text::{chars_of, owned, string_of};
use crate::tui::app::pairs_view;
use crate::tui::form::priority_at;

verus! {

/// The width of a character in terminal columns, as the unicode-width
/// crate reports it.
pub uninterp spec fn char_columns(c: char) -> Option<usize>;

/// `UnicodeWidthChar::width`: the display width of `c` in columns. It is
/// none exactly for the control characters U+0000 to U+001F and U+007F to
/// U+009F, one for the other ASCII characters, and at most 255 (the crate
/// reads it from a table of bytes). Which width the tables give a
/// character beyond that is left to the name.
#[verifier::external_body]
fn char_width(c: char) -> (r: Option<usize>)
    ensures
        r == char_columns(c),
        r is None <==> ((c as u32) < 0x20 || (0x7f <= (c as u32) && (c as u32) < 0xa0)),
        (0x20 <= (c as u32) && (c as u32) < 0x7f) ==> r == Some(1usize),
        r matches Some(w) ==> w <= 255,
{
    unicode_width::UnicodeWidthChar::width(c)
}

/// Columns a character takes on screen (control characters none).
pub open spec fn columns_of(c: char) -> int {
    match char_columns(c) {
        Some(w) => w as int,
        None => 0,
    }
}

/// After the first `i` characters of a line: the segments closed so far,
/// where the open segment starts, and how wide it is. A character that does
/// not fit within `max` columns starts a new segment, unless the open
/// segment is empty.
spec fn wrap_state(chars: Seq<char>, max: int, i: int) -> (Seq<(int, int)>, int, int)
    decreases i,
{
    if i <= 0 {
        (Seq::empty(), 0, 0)
    } else {
        let (ranges, start, width) = wrap_state(chars, max, i - 1);
        let w = columns_of(chars[i - 1]);
        if width + w > max && start < i - 1 {
            (ranges.push((start, i - 1)), i - 1, w)
        } else {
            (ranges, start, width + w)
        }
    }
}

/// The segments (start and end character positions) that the loop of
/// `wrap_line_ranges` closes over a line.
spec fn wrapped(line: Seq<char>, max: nat) -> Seq<(int, int)> {
    if max == 0 || line.len() == 0 {
        seq![(0, line.len() as int)]
    } else {
        let (ranges, start, _) = wrap_state(line, max as int, line.len() as int);
        ranges.push((start, line.len() as int))
    }
}

/// Models of position pairs.
pub open spec fn ranges_view(v: Seq<(usize, usize)>) -> Seq<(int, int)> {
    v.map_values(|p: (usize, usize)| (p.0 as int, p.1 as int))
}

/// Columns that the characters `a..b` of `chars` take.
pub open spec fn width_of(chars: Seq<char>, a: int, b: int) -> int
    decreases b - a,
{
    if b <= a {
        0
    } else {
        width_of(chars, a, b - 1) + columns_of(chars[b - 1])
    }
}

/// Segments `r` of a line, as (start, end) character positions: they cover
/// the line in order without gaps, none is empty, each fits within `max`
/// columns unless it is a single character, and each but the last ends only
/// where the next character would not fit.
pub open spec fn well_wrapped(line: Seq<char>, max: int, r: Seq<(int, int)>) -> bool {
    &&& r.len() >= 1
    &&& r[0].0 == 0
    &&& r[r.len() - 1].1 == line.len()
    &&& forall|k: int| #![trigger r[k]] 0 <= k < r.len() - 1 ==> r[k].1 == r[k + 1].0
    &&& forall|k: int| #![trigger r[k]] 0 <= k < r.len() ==> r[k].0 < r[k].1
    &&& forall|k: int|
        #![trigger r[k]]
        0 <= k < r.len() ==> width_of(line, r[k].0, r[k].1) <= max || r[k].1 - r[k].0 == 1
    &&& forall|k: int|
        #![trigger r[k]]
        0 <= k < r.len() - 1 ==> width_of(line, r[k].0, r[k].1) + columns_of(line[r[k].1]) > max
}

/// What holds of the state after the first `i` characters: the closed
/// segments are well formed and end where the open one starts, and the open
/// segment's width is counted.
proof fn lemma_wrap_state(chars: Seq<char>, max: int, i: int)
    requires
        max > 0,
        0 <= i <= chars.len(),
    ensures
        ({
            let st = wrap_state(chars, max, i);
            let rs = st.0;
            &&& 0 <= st.1 <= i
            &&& (i > 0 ==> st.1 < i)
            &&& st.2 == width_of(chars, st.1, i)
            &&& (st.2 <= max || i - st.1 == 1)
            &&& (rs.len() == 0 ==> st.1 == 0)
            &&& (rs.len() > 0 ==> rs[0].0 == 0 && rs[rs.len() - 1].1 == st.1)
            &&& forall|k: int| #![trigger rs[k]] 0 <= k < rs.len() - 1 ==> rs[k].1 == rs[k + 1].0
            &&& forall|k: int| #![trigger rs[k]] 0 <= k < rs.len() ==> rs[k].0 < rs[k].1 <= st.1
            &&& forall|k: int|
                #![trigger rs[k]]
                0 <= k < rs.len() ==> width_of(chars, rs[k].0, rs[k].1) <= max || rs[k].1 - rs[k].0
                    == 1
            &&& forall|k: int|
                #![trigger rs[k]]
                0 <= k < rs.len() ==> width_of(chars, rs[k].0, rs[k].1) + columns_of(chars[rs[k].1])
                    > max
        }),
    decreases i,
{
    if i > 0 {
        lemma_wrap_state(chars, max, i - 1);
        let prev = wrap_state(chars, max, i - 1);
        let rs0 = prev.0;
        let s0 = prev.1;
        let w0 = prev.2;
        let w = columns_of(chars[i - 1]);
        assert(width_of(chars, i - 1, i - 1) == 0);
        if w0 + w > max && s0 < i - 1 {
            let rs = rs0.push((s0, i - 1));
            assert(wrap_state(chars, max, i) == (rs, i - 1, w));
            assert forall|k: int| #![trigger rs[k]] 0 <= k < rs.len() - 1 implies rs[k].1 == rs[k + 1].0 by {
                assert(rs[k] == rs0[k]);
                if k + 1 < rs0.len() {
                    assert(rs[k + 1] == rs0[k + 1]);
                }
            }
            assert forall|k: int| #![trigger rs[k]] 0 <= k < rs.len() implies rs[k].0 < rs[k].1 <= i - 1 by {
                if k < rs0.len() {
                    assert(rs[k] == rs0[k]);
                }
            }
            assert forall|k: int|
                #![trigger rs[k]]
                0 <= k < rs.len() implies width_of(chars, rs[k].0, rs[k].1) <= max || rs[k].1 - rs[k].0
                    == 1 by {
                if k < rs0.len() {
                    assert(rs[k] == rs0[k]);
                }
            }
            assert forall|k: int|
                #![trigger rs[k]]
                0 <= k < rs.len() implies width_of(chars, rs[k].0, rs[k].1) + columns_of(chars[rs[k].1])
                    > max by {
                if k < rs0.len() {
                    assert(rs[k] == rs0[k]);
                }
            }
        } else {
            assert(wrap_state(chars, max, i) == (rs0, s0, w0 + w));
        }
    }
}

/// The segments that the loop closes are well wrapped.
proof fn lemma_wrapped_segments(line: Seq<char>, max: nat)
    requires
        max > 0,
        line.len() > 0,
    ensures
        well_wrapped(line, max as int, wrapped(line, max)),
{
    lemma_wrap_state(line, max as int, line.len() as int);
    let st = wrap_state(line, max as int, line.len() as int);
    let rs = st.0;
    let r = rs.push((st.1, line.len() as int));
    assert(wrapped(line, max) == r);
    assert forall|k: int| #![trigger r[k]] 0 <= k < r.len() - 1 implies r[k].1 == r[k + 1].0 by {
        assert(r[k] == rs[k]);
        if k + 1 < rs.len() {
            assert(r[k + 1] == rs[k + 1]);
        }
    }
    assert forall|k: int| #![trigger r[k]] 0 <= k < r.len() implies r[k].0 < r[k].1 by {
        if k < rs.len() {
            assert(r[k] == rs[k]);
        }
    }
    assert forall|k: int|
        #![trigger r[k]]
        0 <= k < r.len() implies width_of(line, r[k].0, r[k].1) <= max || r[k].1 - r[k].0 == 1 by {
        if k < rs.len() {
            assert(r[k] == rs[k]);
        }
    }
    assert forall|k: int|
        #![trigger r[k]]
        0 <= k < r.len() - 1 implies width_of(line, r[k].0, r[k].1) + columns_of(line[r[k].1])
        > max by {
        assert(r[k] == rs[k]);
    }
}

/// Splits a line into the segments it wraps into within `max_width`
/// columns: with no width to fill, or on an empty line, the whole line is
/// one segment; otherwise the segments cover the line in order, none is
/// empty, each fits unless it is a single character, and each but the last
/// is as long as it can be.
pub fn wrap_line_ranges(line: &str, max_width: usize) -> (r: Vec<(usize, usize)>)
    ensures
        max_width == 0 || line@.len() == 0 ==> ranges_view(r@) == seq![(0int, line@.len() as int)],
        max_width > 0 && line@.len() > 0 ==> well_wrapped(line@, max_width as int, ranges_view(r@)),
{
    let chars = chars_of(line);
    if max_width == 0 || chars.len() == 0 {
        let mut v: Vec<(usize, usize)> = Vec::new();
        v.push((0, chars.len()));
        assert(ranges_view(v@) =~= seq![(0int, line@.len() as int)]);
        return v;
    }
    let mut ranges: Vec<(usize, usize)> = Vec::new();
    let mut start: usize = 0;
    let mut col_width: u128 = 0;
    let mut i: usize = 0;
    while i < chars.len()
        invariant
            chars@ == line@,
            max_width > 0,
            0 <= i <= chars@.len(),
            (ranges_view(ranges@), start as int, col_width as int) == wrap_state(
                chars@,
                max_width as int,
                i as int,
            ),
            start <= i,
            col_width <= max_width + 255,
            start == i ==> col_width == 0,
        decreases chars@.len() - i,
    {
        let w: u128 = match char_width(chars[i]) {
            Some(x) => x as u128,
            None => 0,
        };
        assert(w as int == columns_of(chars@[i as int]) && w <= 255);
        if col_width + w > max_width as u128 && start < i {
            let ghost before = ranges@;
            ranges.push((start, i));
            assert(ranges_view(ranges@) =~= ranges_view(before).push((start as int, i as int)));
            start = i;
            col_width = w;
        } else {
            col_width = col_width + w;
        }
        i += 1;
    }
    let ghost before = ranges@;
    ranges.push((start, chars.len()));
    assert(ranges_view(ranges@) =~= ranges_view(before).push((start as int, chars@.len() as int)));
    proof {
        lemma_wrapped_segments(line@, max_width as nat);
    }
    ranges
}

/// What the priority selector shows for an index.
pub open spec fn priority_shown(index: usize) -> Seq<char> {
    if index < 5 {
        priority_text(priority_at(index))
    } else {
        "none"@
    }
}

/// What the priority selector shows.
pub fn priority_display(index: usize) -> (r: String)
    ensures
        r@ == priority_shown(index),
{
    if index < 5 {
        let p = crate::tui::form::priority_choice(index);
        owned(p.as_text())
    } else {
        owned("none")
    }
}

/// What a selector over names shows: `(none)` for index 0 or beyond the
/// names, the name otherwise.
pub open spec fn name_shown(index: usize, names: Seq<Seq<char>>) -> Seq<char> {
    if index == 0 || index > names.len() {
        "(none)"@
    } else {
        names[index - 1]
    }
}

/// What the label selector shows.
pub fn label_display(index: usize, labels: &Vec<String>) -> (r: String)
    ensures
        r@ == name_shown(index, crate::text::strings_view(labels@)),
{
    if index == 0 || index > labels.len() {
        owned("(none)")
    } else {
        labels[index - 1].clone()
    }
}

/// What the parent selector shows: the title of the chosen parent.
pub fn parent_display(index: usize, parents: &Vec<(TaskId, String)>) -> (r: String)
    ensures
        r@ == name_shown(index, pairs_view(parents@).map_values(|p: (TaskId, Seq<char>)| p.1)),
{
    if index == 0 || index > parents.len() {
        owned("(none)")
    } else {
        parents[index - 1].1.clone()
    }
}

/// Smallest terminal width that the UI and its dialogs are drawn in.
pub const MIN_WIDTH: u16 = 20;

/// Smallest terminal height that the UI and its dialogs are drawn in.
pub const MIN_HEIGHT: u16 = 5;

/// The area is large enough to draw the UI and its dialogs in.
pub fn fits_ui(area: Area) -> (r: bool)
    ensures
        r == (area.width >= MIN_WIDTH && area.height >= MIN_HEIGHT),
{
    area.width >= MIN_WIDTH && area.height >= MIN_HEIGHT
}

/// A rectangle of the terminal, in cells.
#[derive(Debug, Clone, Copy, PartialEq, Eq, Structural)]
pub struct Area {
    pub x: u16,
    pub y: u16,
    pub width: u16,
    pub height: u16,
}

/// `n` at most `max`.
pub open spec fn min_u16(n: u16, max: u16) -> u16 {
    if n < max {
        n
    } else {
        max
    }
}

/// A rectangle of (at most) the given size centered in `area`.
pub open spec fn centered(width: u16, height: u16, area: Area) -> Area {
    let w = min_u16(width, area.width);
    let h = min_u16(height, area.height);
    Area {
        x: (area.x + (area.width - w) / 2) as u16,
        y: (area.y + (area.height - h) / 2) as u16,
        width: w,
        height: h,
    }
}

/// A rectangle of (at most) the given size centered in `area`; the size is
/// kept within the area.
pub fn centered_rect(width: u16, height: u16, area: Area) -> (r: Area)
    requires
        area.x + area.width <= u16::MAX,
        area.y + area.height <= u16::MAX,
    ensures
        r == centered(width, height, area),
        r.x + r.width <= area.x + area.width,
        r.y + r.height <= area.y + area.height,
{
    let w = if width < area.width {
        width
    } else {
        area.width
    };
    let h = if height < area.height {
        height
    } else {
        area.height
    };
    let x = area.x + (area.width - w) / 2;
    let y = area.y + (area.height - h) / 2;
    Area { x, y, width: w, height: h }
}

/// A text split at a cursor column for drawing a block cursor: the text
/// before it, the character under it (a space past the end), the text after.
pub open spec fn cursor_split(t: Seq<char>, col: usize) -> (Seq<char>, Seq<char>, Seq<char>) {
    let c = if col < t.len() {
        col as int
    } else {
        t.len() as int
    };
    if c < t.len() {
        (t.take(c), seq![t[c]], t.skip(c + 1))
    } else {
        (t, seq![' '], Seq::empty())
    }
}

/// Whether the cursor, at column `col` of its line, is drawn in the wrapped
/// segment `start..end` of that line: the first segment the column falls
/// in, the last segment taking a column at its end or beyond.
pub fn cursor_in_segment(col: usize, start: usize, end: usize, last: bool) -> (r: bool)
    ensures
        r == (col >= start && (col < end || last)),
{
    col >= start && (col < end || last)
}

/// The first visual row shown so that the cursor's visual row is on screen
/// when `visible` rows are shown: none is skipped while the cursor fits.
pub fn scroll_offset(cursor_row: usize, visible: usize) -> (r: usize)
    ensures
        visible == 0 ==> r == cursor_row,
        visible > 0 ==> r == (if cursor_row + 1 > visible {
            cursor_row + 1 - visible
        } else {
            0
        }),
        visible > 0 ==> r <= cursor_row < r + visible,
{
    let keep = if visible > 0 {
        visible - 1
    } else {
        0
    };
    if cursor_row > keep {
        cursor_row - keep
    } else {
        0
    }
}

/// Splits a text at the cursor column for drawing a block cursor.
pub fn cursor_parts(text: &str, cursor_col: usize) -> (r: (String, String, String))
    ensures
        (r.0@, r.1@, r.2@) == cursor_split(text@, cursor_col),
{
    let chars = chars_of(text);
    let col = if cursor_col < chars.len() {
        cursor_col
    } else {
        chars.len()
    };
    let mut before: Vec<char> = Vec::new();
    let mut i: usize = 0;
    while i < col
        invariant
            chars@ == text@,
            col <= chars@.len(),
            0 <= i <= col,
            before@ == chars@.take(i as int),
        decreases col - i,
    {
        before.push(chars[i]);
        assert(chars@.take(i + 1) =~= chars@.take(i as int).push(chars@[i as int]));
        i += 1;
    }
    if col < chars.len() {
        let mut under: Vec<char> = Vec::new();
        under.push(chars[col]);
        let mut after: Vec<char> = Vec::new();
        let mut j: usize = col + 1;
        while j < chars.len()
            invariant
                chars@ == text@,
                col < chars@.len(),
                col + 1 <= j <= chars@.len(),
                after@ == chars@.subrange(col + 1, j as int),
            decreases chars@.len() - j,
        {
            after.push(chars[j]);
            assert(chars@.subrange(col + 1, j + 1) =~= chars@.subrange(col + 1, j as int).push(
                chars@[j as int],
            ));
            j += 1;
        }
        assert(chars@.subrange(col + 1, chars@.len() as int) =~= chars@.skip(col + 1));
        assert(under@ =~= seq![chars@[col as int]]);
        let r = (string_of(&before), string_of(&under), string_of(&after));
        assert(r.0@ =~= text@.take(col as int));
        r
    } else {
        let mut under: Vec<char> = Vec::new();
        under.push(' ');
        assert(before@ =~= text@);
        assert(under@ =~= seq![' ']);
        let rest = owned("");
        proof {
            reveal_strlit("");
            assert(rest@ =~= Seq::<char>::empty());
        }
        (string_of(&before), string_of(&under), rest)
    }
}

} // verus!
