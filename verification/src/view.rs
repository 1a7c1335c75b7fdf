//! What the terminal screen shows: the window of lines while scrolled
//! back, the status items, and the mapping between screen cells and the
//! selection.
use vstd::prelude::*;
use crate::input::Rect;
use crate::scrollback::{all_lines, all_lines_exec};
use crate::state::{effects, App, Effect, EffectView, Screen, TerminalView};
use crate::text::{cviews, string_of, views};

verus! {

/// The lines shown while scrolled back `offset` lines with `height` rows:
/// the window ends `offset` lines above the newest (but never past the
/// oldest full screen).
pub open spec fn scrolled_window(lines: Seq<Seq<char>>, offset: int, height: int) -> Seq<Seq<char>> {
    let total = lines.len() as int;
    let max = if total > height {
        total - height
    } else {
        0
    };
    let end = total - (if offset < max {
        offset
    } else {
        max
    });
    let start = if end > height {
        end - height
    } else {
        0
    };
    lines.subrange(start, end)
}

/// While scrolled back `k` lines with `h` rows shown, the window is the
/// `h` lines ending `k` lines above the newest one; scrolled back further
/// than the oldest full screen, it is the oldest `h` lines; with fewer
/// lines than rows, all of them.
pub proof fn law_scrolled_window_ends_offset_above_newest(lines: Seq<Seq<char>>, k: int, h: int)
    requires
        0 <= k,
        0 <= h,
    ensures
        k <= lines.len() - h ==> scrolled_window(lines, k, h) == lines.subrange(
            lines.len() - k - h,
            lines.len() - k,
        ),
        lines.len() >= h && k > lines.len() - h ==> scrolled_window(lines, k, h) == lines.subrange(0, h),
        lines.len() < h ==> scrolled_window(lines, k, h) == lines,
{
    if lines.len() < h {
        assert(lines.subrange(0, lines.len() as int) =~= lines);
    }
}

/// The lines the scrolled-back view is taken from.
pub open spec fn view_source(v: TerminalView) -> Seq<Seq<char>> {
    match v.frozen_lines {
        Some(f) => views(f@),
        None => views(v.scrollback@),
    }
}

/// An item of the status area on the right of the information bar.
#[derive(Clone, Copy, Debug, PartialEq, Eq, Structural)]
pub enum InfoItem {
    /// Scrolled back as far as possible.
    ScrollTop,
    /// Scrolled back this many lines.
    ScrollOffset(usize),
    /// Waiting for the device to come back.
    Reconnecting,
}

/// The status items: the scroll position (if scrolled back) measured
/// against the live scrollback, then a reconnecting notice while the
/// terminal waits for its device.
pub open spec fn info_items(a: App) -> Seq<InfoItem> {
    let count = all_lines(views(a.view.scrollback@)).len() as int;
    let max = if count > a.view.viewport_height {
        count - a.view.viewport_height
    } else {
        0
    };
    let scroll = if a.view.scroll_offset >= max && max > 0 {
        seq![InfoItem::ScrollTop]
    } else if a.view.scroll_offset > 0 {
        seq![InfoItem::ScrollOffset(a.view.scroll_offset)]
    } else {
        seq![]
    };
    let waiting = if !a.connected && a.hold && a.screen == Screen::Terminal {
        seq![InfoItem::Reconnecting]
    } else {
        seq![]
    };
    scroll + waiting
}

/// The area inside a bordered block: one cell in from each edge.
pub open spec fn inner_area(r: Rect) -> Rect {
    Rect {
        x: (r.x + 1) as u16,
        y: (r.y + 1) as u16,
        width: if r.width >= 2 {
            (r.width - 2) as u16
        } else {
            0
        },
        height: if r.height >= 2 {
            (r.height - 2) as u16
        } else {
            0
        },
    }
}

impl App {
    /// Lays the output out inside the bordered `area`: the output area and
    /// the number of rows shown follow its inside, and the terminal emulator
    /// is resized to it.
    pub fn set_output_area(&mut self, area: Rect) -> (r: Vec<Effect>)
        requires
            old(self).inv(),
            area.x < u16::MAX,
            area.y < u16::MAX,
        ensures
            final(self).inv(),
            *final(self) == (App {
                view: TerminalView {
                    output_rect: inner_area(area),
                    viewport_height: inner_area(area).height as usize,
                    ..old(self).view
                },
                ..*old(self)
            }),
            effects(r@) == seq![EffectView::ResizeEmulator(inner_area(area).height, inner_area(area).width)],
    {
        let inner = Rect {
            x: area.x + 1,
            y: area.y + 1,
            width: if area.width >= 2 {
                area.width - 2
            } else {
                0
            },
            height: if area.height >= 2 {
                area.height - 2
            } else {
                0
            },
        };
        self.view.viewport_height = inner.height as usize;
        self.view.output_rect = inner;
        let mut r: Vec<Effect> = Vec::new();
        r.push(Effect::ResizeEmulator(inner.height, inner.width));
        assert(effects(r@) =~= seq![EffectView::ResizeEmulator(inner.height, inner.width)]);
        r
    }

    /// Shows the live output: the visible lines become the emulator's rows
    /// `rows`, cut or padded with empty lines to the number of rows shown.
    pub fn set_live_lines(&mut self, rows: Vec<String>)
        ensures
            final(self).view.visible_lines@.len() == old(self).view.viewport_height,
            forall|i: int|
                0 <= i < final(self).view.visible_lines@.len() ==> (#[trigger] final(self).view.visible_lines@[i])@
                    == (if i < rows@.len() {
                    rows@[i]@
                } else {
                    Seq::<char>::empty()
                }),
            *final(self) == (App {
                view: TerminalView { visible_lines: final(self).view.visible_lines, ..old(self).view },
                ..*old(self)
            }),
    {
        let h = self.view.viewport_height;
        let mut lines: Vec<String> = Vec::new();
        let mut i: usize = 0;
        while i < h
            invariant
                i <= h,
                lines@.len() == i,
                forall|j: int|
                    0 <= j < i ==> (#[trigger] lines@[j])@ == (if j < rows@.len() {
                        rows@[j]@
                    } else {
                        Seq::<char>::empty()
                    }),
            decreases h - i,
        {
            if i < rows.len() {
                lines.push(String::from_str(rows[i].as_str()));
            } else {
                lines.push(String::new());
            }
            i += 1;
        }
        self.view.visible_lines = lines;
    }

    /// While scrolled back, fills the visible lines from the frozen copy
    /// (or the scrollback) and says so; otherwise changes nothing.
    pub fn update_scrolled_view(&mut self) -> (scrolling: bool)
        ensures
            scrolling == (old(self).view.scroll_offset > 0),
            !scrolling ==> *final(self) == *old(self),
            scrolling ==> views(final(self).view.visible_lines@) == scrolled_window(
                all_lines(view_source(old(self).view)),
                old(self).view.scroll_offset as int,
                old(self).view.viewport_height as int,
            ),
            *final(self) == (App {
                view: TerminalView { visible_lines: final(self).view.visible_lines, ..old(self).view },
                ..*old(self)
            }),
    {
        if self.view.scroll_offset == 0 {
            return false;
        }
        let lines = match &self.view.frozen_lines {
            Some(f) => all_lines_exec(f),
            None => all_lines_exec(&self.view.scrollback),
        };
        let ghost ls = cviews(lines@);
        assert(ls == all_lines(view_source(old(self).view)));
        let total = lines.len();
        let height = self.view.viewport_height;
        let max = if total > height {
            total - height
        } else {
            0
        };
        let off = if self.view.scroll_offset < max {
            self.view.scroll_offset
        } else {
            max
        };
        let end = total - off;
        let start = if end > height {
            end - height
        } else {
            0
        };
        let mut visible: Vec<String> = Vec::new();
        let mut i: usize = start;
        while i < end
            invariant
                start <= i <= end,
                end <= lines@.len(),
                ls == cviews(lines@),
                views(visible@) == ls.subrange(start as int, i as int),
            decreases end - i,
        {
            let s = string_of(lines[i].as_slice());
            let ghost before = visible@;
            visible.push(s);
            assert(views(visible@) =~= views(before).push(s@));
            assert(ls.subrange(start as int, i + 1) =~= ls.subrange(start as int, i as int).push(ls[i as int]));
            i += 1;
        }
        self.view.visible_lines = visible;
        true
    }

    /// The status items shown on the right of the information bar.
    pub fn info_bar_right(&self) -> (items: Vec<InfoItem>)
        ensures
            items@ == info_items(*self),
    {
        let count = all_lines_exec(&self.view.scrollback).len();
        let max = if count > self.view.viewport_height {
            count - self.view.viewport_height
        } else {
            0
        };
        let mut items: Vec<InfoItem> = Vec::new();
        if self.view.scroll_offset >= max && max > 0 {
            items.push(InfoItem::ScrollTop);
        } else if self.view.scroll_offset > 0 {
            items.push(InfoItem::ScrollOffset(self.view.scroll_offset));
        }
        if !self.connected && self.hold && self.screen == Screen::Terminal {
            items.push(InfoItem::Reconnecting);
        }
        assert(items@ =~= info_items(*self));
        items
    }

    /// Whether the information bar names the active port and its speed:
    /// only on the terminal screen with a port chosen.
    pub fn info_bar_shows_port(&self) -> (b: bool)
        ensures
            b == !(self.active_port@.len() == 0 || self.screen == Screen::PortSelect),
    {
        !(self.active_port.as_str().is_empty() || self.screen == Screen::PortSelect)
    }
}

/// The cell (row, column) inside `rect` at a screen position, if inside.
pub open spec fn cell_in(rect: Rect, col: u16, row: u16) -> Option<(usize, usize)> {
    if col < rect.x || col >= rect.x + rect.width || row < rect.y || row >= rect.y + rect.height {
        None
    } else {
        Some(((row - rect.y) as usize, (col - rect.x) as usize))
    }
}

/// The cell inside `rect` at a screen position.
pub fn cell_at(rect: Rect, col: u16, row: u16) -> (r: Option<(usize, usize)>)
    requires
        rect.x + rect.width <= u16::MAX,
        rect.y + rect.height <= u16::MAX,
    ensures
        r == cell_in(rect, col, row),
{
    if col < rect.x || col >= rect.x + rect.width || row < rect.y || row >= rect.y + rect.height {
        return None;
    }
    Some(((row - rect.y) as usize, (col - rect.x) as usize))
}

/// A screen position moved into `rect` (its nearest cell).
pub open spec fn clamp_to(v: int, lo: int, len: int) -> int {
    let hi = lo + if len > 0 {
        len - 1
    } else {
        0
    };
    if v < lo {
        lo
    } else if v > hi {
        hi
    } else {
        v
    }
}

/// The cell of `rect` nearest to a screen position.
pub fn clamp_cell(rect: Rect, col: u16, row: u16) -> (r: (usize, usize))
    requires
        rect.x + rect.width <= u16::MAX + 1,
        rect.y + rect.height <= u16::MAX + 1,
    ensures
        r.0 == clamp_to(row as int, rect.y as int, rect.height as int) - rect.y,
        r.1 == clamp_to(col as int, rect.x as int, rect.width as int) - rect.x,
{
    let hx = rect.x + if rect.width > 0 {
        rect.width - 1
    } else {
        0
    };
    let hy = rect.y + if rect.height > 0 {
        rect.height - 1
    } else {
        0
    };
    let c = if col < rect.x {
        rect.x
    } else if col > hx {
        hx
    } else {
        col
    };
    let r = if row < rect.y {
        rect.y
    } else if row > hy {
        hy
    } else {
        row
    };
    ((r - rect.y) as usize, (c - rect.x) as usize)
}

/// Whether the cell at (`row`, `col`) lies in the selection from `start`
/// to `end` (in reading order, ends included).
pub open spec fn in_selection(selection: Option<((usize, usize), (usize, usize))>, row: usize, col: usize) -> bool {
    match selection {
        None => false,
        Some((start, end)) => {
            &&& start.0 <= row <= end.0
            &&& (row == start.0 ==> col >= start.1)
            &&& (row == end.0 ==> col <= end.1)
        },
    }
}

/// Whether a cell lies in the selection.
pub fn is_selected(selection: Option<((usize, usize), (usize, usize))>, row: usize, col: usize) -> (b: bool)
    ensures
        b == in_selection(selection, row, col),
{
    let (start, end) = match selection {
        Some(s) => s,
        None => return false,
    };
    if row < start.0 || row > end.0 {
        return false;
    }
    let from = if row == start.0 {
        start.1
    } else {
        0
    };
    let to = if row == end.0 {
        end.1
    } else {
        usize::MAX
    };
    col >= from && col <= to
}

/// The highlighted part of a scrolled-back line of `len` characters at
/// `row`, as a character range, if the selection reaches the row.
pub open spec fn highlight(len: int, row: usize, selection: Option<((usize, usize), (usize, usize))>) -> Option<(int, int)> {
    match selection {
        None => None,
        Some((start, end)) => if row < start.0 || row > end.0 {
            None
        } else {
            let from0 = if row == start.0 {
                start.1 as int
            } else {
                0
            };
            let from = if from0 < len {
                from0
            } else {
                len
            };
            let to0 = if row == end.0 {
                end.1 + 1
            } else {
                len
            };
            let to1 = if to0 > from {
                to0
            } else {
                from
            };
            let to = if to1 < len {
                to1
            } else {
                len
            };
            Some((from, to))
        },
    }
}

/// The highlighted character range of a scrolled-back line.
pub fn highlight_span(len: usize, row: usize, selection: Option<((usize, usize), (usize, usize))>) -> (r: Option<(usize, usize)>)
    ensures
        match r {
            Some((a, b)) => highlight(len as int, row, selection) == Some((a as int, b as int)),
            None => highlight(len as int, row, selection) is None,
        },
{
    let (start, end) = match selection {
        Some(s) => s,
        None => return None,
    };
    if row < start.0 || row > end.0 {
        return None;
    }
    let from0 = if row == start.0 {
        start.1
    } else {
        0
    };
    let from = if from0 < len {
        from0
    } else {
        len
    };
    let to: usize = if row == end.0 {
        if end.1 >= len {
            len
        } else if end.1 + 1 > from {
            end.1 + 1
        } else {
            from
        }
    } else {
        len
    };
    Some((from, to))
}

} // verus!
