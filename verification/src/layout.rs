//! Layout arithmetic of the bars and pop-ups: how the help entries wrap
//! onto rows, how tall the help bar is, and where the error pop-up goes.
use vstd::prelude::*;
use ratatui::layout::Constraint::{Length, Min, Percentage};
use crate::input::Rect;
use crate::state::{ErrorEntry, TerminalMode};
use crate::text::{decimal, push_decimal};

verus! {

/// The sum of the widths.
pub open spec fn total(widths: Seq<usize>) -> int
    decreases widths.len(),
{
    if widths.len() == 0 {
        0
    } else {
        widths[0] + total(widths.drop_first())
    }
}

/// Greedy wrapping, continued: `rows` holds the span counts of the rows
/// already closed, and the open row has `count` spans of `used` cells.
/// A span goes on the open row unless it would overflow `inner` cells and
/// the row already has a span; then the row is closed and the span opens
/// the next one.
pub open spec fn wrap_from(widths: Seq<usize>, inner: int, rows: Seq<usize>, count: int, used: int) -> Seq<usize>
    decreases widths.len(),
{
    if widths.len() == 0 {
        if count > 0 {
            rows.push(count as usize)
        } else {
            rows
        }
    } else {
        let w = widths[0] as int;
        if used + w > inner && count > 0 {
            wrap_from(widths.drop_first(), inner, rows.push(count as usize), 1, w)
        } else {
            wrap_from(widths.drop_first(), inner, rows, count + 1, used + w)
        }
    }
}

/// The rows that spans of the given widths take in a bar `width` cells
/// wide (two of them go to the border), as the number of spans on each
/// row; with no spans there is one empty row.
pub open spec fn wrapped_rows(widths: Seq<usize>, width: u16) -> Seq<usize> {
    let inner = if width >= 2 {
        width - 2
    } else {
        0
    };
    let rows = wrap_from(widths, inner, seq![], 0, 0);
    if rows.len() == 0 {
        seq![0usize]
    } else {
        rows
    }
}

proof fn lemma_total_nonneg(widths: Seq<usize>)
    ensures
        total(widths) >= 0,
    decreases widths.len(),
{
    if widths.len() > 0 {
        lemma_total_nonneg(widths.drop_first());
    }
}

proof fn lemma_wrap_step(widths: Seq<usize>, i: int, inner: int, rows: Seq<usize>, count: int, used: int)
    requires
        0 <= i < widths.len(),
    ensures
        wrap_from(widths.subrange(i, widths.len() as int), inner, rows, count, used) == ({
            let w = widths[i] as int;
            if used + w > inner && count > 0 {
                wrap_from(widths.subrange(i + 1, widths.len() as int), inner, rows.push(count as usize), 1, w)
            } else {
                wrap_from(widths.subrange(i + 1, widths.len() as int), inner, rows, count + 1, used + w)
            }
        }),
        total(widths.subrange(i, widths.len() as int)) == widths[i] + total(
            widths.subrange(i + 1, widths.len() as int),
        ),
{
    assert(widths.subrange(i, widths.len() as int).drop_first() =~= widths.subrange(i + 1, widths.len() as int));
}

/// Wraps help entries onto rows: given the display width of each span and
/// the bar's width, the number of spans on each row (see `wrapped_rows`).
pub fn wrap_spans_to_lines(widths: &Vec<usize>, width: u16) -> (rows: Vec<usize>)
    requires
        total(widths@) <= usize::MAX,
    ensures
        rows@ == wrapped_rows(widths@, width),
{
    let inner: usize = if width >= 2 {
        (width - 2) as usize
    } else {
        0
    };
    let mut rows: Vec<usize> = Vec::new();
    let mut count: usize = 0;
    let mut used: usize = 0;
    let mut i: usize = 0;
    assert(widths@.subrange(0, widths@.len() as int) =~= widths@);
    while i < widths.len()
        invariant
            i <= widths.len(),
            count <= i,
            used + total(widths@.subrange(i as int, widths@.len() as int)) <= total(widths@),
            total(widths@) <= usize::MAX,
            inner == (if width >= 2 { width - 2 } else { 0 }),
            wrap_from(widths@, inner as int, seq![], 0, 0) == wrap_from(
                widths@.subrange(i as int, widths@.len() as int),
                inner as int,
                rows@,
                count as int,
                used as int,
            ),
        decreases widths.len() - i,
    {
        let w = widths[i];
        proof {
            lemma_wrap_step(widths@, i as int, inner as int, rows@, count as int, used as int);
            lemma_total_nonneg(widths@.subrange(i + 1, widths@.len() as int));
        }
        if used + w > inner && count > 0 {
            rows.push(count);
            count = 1;
            used = w;
        } else {
            count = count + 1;
            used = used + w;
        }
        i = i + 1;
    }
    assert(widths@.subrange(i as int, widths@.len() as int) =~= Seq::<usize>::empty());
    if count > 0 {
        rows.push(count);
    }
    if rows.len() == 0 {
        rows.push(0);
        assert(rows@ =~= seq![0usize]);
    }
    rows
}

/// The help bar's height (its rows, counted modulo 2^16, plus the border)
/// and its rows, as `wrap_spans_to_lines` gives them.
pub fn help_bar_height(widths: &Vec<usize>, width: u16) -> (r: (u16, Vec<usize>))
    requires
        total(widths@) <= usize::MAX,
        wrapped_rows(widths@, width).len() % 65536 + 2 <= u16::MAX,
    ensures
        r.1@ == wrapped_rows(widths@, width),
        r.0 == r.1@.len() % 65536 + 2,
{
    let rows = wrap_spans_to_lines(widths, width);
    let height = (rows.len() % 65536) as u16 + 2;
    (height, rows)
}

/// The text of the error pop-up: the message, followed by how often it
/// occurred when more than once.
pub open spec fn error_text(message: Seq<char>, count: u32) -> Seq<char> {
    if count > 1 {
        message + " (x"@ + decimal(count as nat) + ")"@
    } else {
        message
    }
}

/// The text shown for an error (see `error_text`).
pub fn error_label(entry: &ErrorEntry) -> (s: String)
    ensures
        s@ == error_text(entry.message@, entry.count),
{
    let mut s = entry.message.clone();
    if entry.count > 1 {
        s.append(" (x");
        push_decimal(&mut s, entry.count as u64);
        s.append(")");
    }
    s
}

/// Where the error pop-up goes on a screen `screen_width` cells wide: at
/// the top, three rows tall, centred, as wide as the text plus four (the
/// text's length taken modulo 2^16), at least 24 cells, at most the
/// screen.
pub open spec fn popup_area(text_len: nat, screen_width: u16) -> Rect {
    let wanted: int = (text_len % 65536) as int + 4;
    let at_least: int = if wanted < 24 {
        24
    } else {
        wanted
    };
    let width: int = if at_least > screen_width {
        screen_width as int
    } else {
        at_least
    };
    Rect { x: ((screen_width - width) / 2) as u16, y: 0, width: width as u16, height: 3 }
}

/// The area of the error pop-up for a text of `text_len` bytes (see
/// `popup_area`).
pub fn error_popup_area(text_len: usize, screen_width: u16) -> (r: Rect)
    requires
        text_len % 65536 + 4 <= u16::MAX,
    ensures
        r == popup_area(text_len as nat, screen_width),
{
    let low: u16 = (text_len % 65536) as u16;
    let wanted: u16 = low + 4;
    let at_least: u16 = if wanted < 24 {
        24
    } else {
        wanted
    };
    let width: u16 = if at_least > screen_width {
        screen_width
    } else {
        at_least
    };
    Rect { x: (screen_width - width) / 2, y: 0, width, height: 3 }
}

/// Where the settings dialogue goes on a screen of `w` by `h` cells:
/// centred, 66 cells wide and 12 rows tall, or the whole screen where it
/// is smaller.
pub open spec fn settings_area(w: u16, h: u16) -> Rect {
    let width: int = if w < 66 {
        w as int
    } else {
        66
    };
    let height: int = if h < 12 {
        h as int
    } else {
        12
    };
    Rect { x: ((w - width) / 2) as u16, y: ((h - height) / 2) as u16, width: width as u16, height: height as u16 }
}

/// The area of the settings dialogue (see `settings_area`).
pub fn settings_popup_area(w: u16, h: u16) -> (r: Rect)
    ensures
        r == settings_area(w, h),
{
    let width: u16 = if w < 66 {
        w
    } else {
        66
    };
    let height: u16 = if h < 12 {
        h
    } else {
        12
    };
    Rect { x: (w - width) / 2, y: (h - height) / 2, width, height }
}

/// Where the characters of the line being typed in line mode are drawn,
/// continuing from the cursor at (`row`, `col`) in an output of `w` by
/// `h` cells: a character past the right edge goes to the start of the next
/// row, and drawing stops below the last row.  Also gives where the
/// cursor ends up (before it is kept inside the output).
pub open spec fn overlay_from(row: int, col: int, n: nat, w: int, h: int) -> (Seq<(u16, u16)>, int, int)
    decreases n,
{
    if n == 0 {
        (seq![], row, col)
    } else {
        let r1: int = if col >= w {
            if row < u16::MAX {
                row + 1
            } else {
                row
            }
        } else {
            row
        };
        let c1: int = if col >= w {
            0
        } else {
            col
        };
        if r1 >= h {
            (seq![], r1, c1)
        } else {
            let rest = overlay_from(r1, c1 + 1, (n - 1) as nat, w, h);
            (seq![(c1 as u16, r1 as u16)] + rest.0, rest.1, rest.2)
        }
    }
}

/// A position kept inside `[lo, lo + len)`, or at `lo` when that range is
/// empty (the end saturates at zero).
pub open spec fn kept_in(v: int, lo: int, len: int) -> int {
    let last = if lo + len >= 1 {
        lo + len - 1
    } else {
        0
    };
    if v < last {
        v
    } else {
        last
    }
}

/// The cells (column, row, relative to the output) where the `n`
/// characters of the typed line are drawn, and the screen position of the
/// cursor after them, kept inside the output `area`.
pub fn line_overlay(area: Rect, cursor_row: u16, cursor_col: u16, n: usize) -> (r: (Vec<(u16, u16)>, (u16, u16)))
    requires
        area.x + area.width <= u16::MAX,
        area.y + area.height <= u16::MAX,
    ensures
        ({
            let o = overlay_from(cursor_row as int, cursor_col as int, n as nat, area.width as int, area.height as int);
            &&& r.0@ == o.0
            &&& r.1.0 == kept_in(area.x + o.2, 0, area.x + area.width)
            &&& r.1.1 == kept_in(area.y + o.1, 0, area.y + area.height)
        }),
{
    let w = area.width;
    let h = area.height;
    let mut row: u16 = cursor_row;
    let mut col: u16 = cursor_col;
    let mut cells: Vec<(u16, u16)> = Vec::new();
    let mut i: usize = 0;
    let ghost whole = overlay_from(cursor_row as int, cursor_col as int, n as nat, w as int, h as int);
    while i < n
        invariant_except_break
            ({
                let rest = overlay_from(row as int, col as int, (n - i) as nat, w as int, h as int);
                whole == (cells@ + rest.0, rest.1, rest.2)
            }),
        invariant
            i <= n,
            w == area.width,
            h == area.height,
            whole == overlay_from(cursor_row as int, cursor_col as int, n as nat, w as int, h as int),
        ensures
            whole == (cells@, row as int, col as int),
        decreases n - i,
    {
        let ghost before = cells@;
        if col >= w {
            col = 0;
            row = if row < u16::MAX {
                row + 1
            } else {
                row
            };
        }
        if row >= h {
            assert(before + Seq::<(u16, u16)>::empty() =~= before);
            break;
        }
        cells.push((col, row));
        proof {
            let rest = overlay_from(row as int, col + 1, (n - i - 1) as nat, w as int, h as int);
            assert(before + (seq![(col, row)] + rest.0) =~= cells@ + rest.0);
        }
        col = col + 1;
        i = i + 1;
    }
    proof {
        if i == n {
            assert(cells@ + Seq::<(u16, u16)>::empty() =~= cells@);
        }
    }
    let x_end: u32 = area.x as u32 + area.width as u32;
    let y_end: u32 = area.y as u32 + area.height as u32;
    let px: u32 = area.x as u32 + col as u32;
    let py: u32 = area.y as u32 + row as u32;
    let cx: u32 = if x_end >= 1 {
        if px < x_end - 1 {
            px
        } else {
            x_end - 1
        }
    } else {
        0
    };
    let cy: u32 = if y_end >= 1 {
        if py < y_end - 1 {
            py
        } else {
            y_end - 1
        }
    } else {
        0
    };
    let cx16: u16 = cx as u16;
    let cy16: u16 = cy as u16;
    (cells, (cx16, cy16))
}

/// Key help entries as text pairs.
pub open spec fn pairs_view(v: Seq<(&str, &str)>) -> Seq<(Seq<char>, Seq<char>)> {
    v.map_values(|e: (&str, &str)| (e.0@, e.1@))
}

/// The key help of the terminal screen: the mode's badge and its (key,
/// action) entries.  In insert mode the only entry is the key that leaves
/// it: Ctrl+Esc where the terminal reports it, else Ctrl+Space.
pub open spec fn mode_help(mode: TerminalMode, keyboard_enhanced: bool) -> (Seq<char>, Seq<(Seq<char>, Seq<char>)>) {
    match mode {
        TerminalMode::Insert => (
            " INSERT "@,
            seq![(if keyboard_enhanced { "Ctrl+Esc"@ } else { "Ctrl+Space"@ }, "control mode"@)],
        ),
        TerminalMode::Control => (
            " CONTROL "@,
            seq![
                ("a"@, "insert"@),
                ("↑↓"@, "scroll"@),
                ("esc"@, "bottom"@),
                ("f"@, "flush"@),
                ("c"@, "copy"@),
                ("+/-"@, "baud"@),
                ("p"@, "pause"@),
                ("s"@, "settings"@),
                ("del"@, "port select"@),
                ("q"@, "quit"@),
            ],
        ),
    }
}

/// The key help of the terminal screen (see `mode_help`).
pub fn help_for_mode(mode: TerminalMode, keyboard_enhanced: bool) -> (r: (&'static str, Vec<(&'static str, &'static str)>))
    ensures
        r.0@ == mode_help(mode, keyboard_enhanced).0,
        pairs_view(r.1@) == mode_help(mode, keyboard_enhanced).1,
{
    let mut entries: Vec<(&'static str, &'static str)> = Vec::new();
    match mode {
        TerminalMode::Insert => {
            let hint = if keyboard_enhanced {
                "Ctrl+Esc"
            } else {
                "Ctrl+Space"
            };
            entries.push((hint, "control mode"));
            assert(pairs_view(entries@) =~= mode_help(mode, keyboard_enhanced).1);
            (" INSERT ", entries)
        },
        TerminalMode::Control => {
            entries.push(("a", "insert"));
            entries.push(("↑↓", "scroll"));
            entries.push(("esc", "bottom"));
            entries.push(("f", "flush"));
            entries.push(("c", "copy"));
            entries.push(("+/-", "baud"));
            entries.push(("p", "pause"));
            entries.push(("s", "settings"));
            entries.push(("del", "port select"));
            entries.push(("q", "quit"));
            assert(pairs_view(entries@) =~= mode_help(mode, keyboard_enhanced).1);
            (" CONTROL ", entries)
        },
    }
}

/// Name for how ratatui's `Layout::vertical` divides `area` into a bar
/// of `top` rows, the rest, and a bar of `bottom` rows.
pub uninterp spec fn bars_split(area: Rect, top: u16, bottom: u16) -> (Rect, Rect, Rect);

/// Calls ratatui's `Layout::vertical` with the constraints `Length(top)`,
/// `Min(0)` and `Length(bottom)` and `areas` on `area`; the result is the
/// name `bars_split` of its arguments.
#[verifier::external_body]
fn split_bars(area: Rect, top: u16, bottom: u16) -> (r: (Rect, Rect, Rect))
    ensures
        r == bars_split(area, top, bottom),
{
    let whole = ratatui::layout::Rect { x: area.x, y: area.y, width: area.width, height: area.height };
    let [a, b, c] = ratatui::layout::Layout::vertical([Length(top), Min(0), Length(bottom)]).areas(whole);
    (
        Rect { x: a.x, y: a.y, width: a.width, height: a.height },
        Rect { x: b.x, y: b.y, width: b.width, height: b.height },
        Rect { x: c.x, y: c.y, width: c.width, height: c.height },
    )
}

/// The height of a bar holding spans of the given widths in a screen
/// `width` cells wide (see `help_bar_height`).
pub open spec fn bar_height(widths: Seq<usize>, width: u16) -> u16 {
    (wrapped_rows(widths, width).len() % 65536 + 2) as u16
}

/// A screen divided into the information bar (as tall as its wrapped
/// spans need), the main area, and the help bar (likewise), with the rows
/// of both bars.
pub fn screen_layout(screen: Rect, info_widths: &Vec<usize>, help_widths: &Vec<usize>) -> (r: (
    (Rect, Rect, Rect),
    Vec<usize>,
    Vec<usize>,
))
    requires
        total(info_widths@) <= usize::MAX,
        total(help_widths@) <= usize::MAX,
        wrapped_rows(info_widths@, screen.width).len() % 65536 + 2 <= u16::MAX,
        wrapped_rows(help_widths@, screen.width).len() % 65536 + 2 <= u16::MAX,
    ensures
        r.0 == bars_split(screen, bar_height(info_widths@, screen.width), bar_height(help_widths@, screen.width)),
        r.1@ == wrapped_rows(info_widths@, screen.width),
        r.2@ == wrapped_rows(help_widths@, screen.width),
{
    let (top, info_rows) = help_bar_height(info_widths, screen.width);
    let (bottom, help_rows) = help_bar_height(help_widths, screen.width);
    (split_bars(screen, top, bottom), info_rows, help_rows)
}

/// Name for how ratatui's `Layout::horizontal` divides `area` into two
/// columns of 40 and 60 percent.
pub uninterp spec fn columns_split(area: Rect) -> (Rect, Rect);

/// Calls ratatui's `Layout::horizontal` with the constraints
/// `Percentage(40)` and `Percentage(60)` and `areas` on `area`; the result
/// is the name `columns_split` of it.
#[verifier::external_body]
fn split_columns(area: Rect) -> (r: (Rect, Rect))
    ensures
        r == columns_split(area),
{
    let whole = ratatui::layout::Rect { x: area.x, y: area.y, width: area.width, height: area.height };
    let [a, b] = ratatui::layout::Layout::horizontal([Percentage(40), Percentage(60)]).areas(whole);
    (Rect { x: a.x, y: a.y, width: a.width, height: a.height }, Rect { x: b.x, y: b.y, width: b.width, height: b.height })
}

/// The port selection screen: the bars as `screen_layout` gives them, with
/// the main area divided into the port list (40 percent) and the port
/// description (60 percent).
pub fn port_select_layout(screen: Rect, info_widths: &Vec<usize>, help_widths: &Vec<usize>) -> (r: (
    (Rect, Rect, Rect, Rect),
    Vec<usize>,
))
    requires
        total(info_widths@) <= usize::MAX,
        total(help_widths@) <= usize::MAX,
        wrapped_rows(info_widths@, screen.width).len() % 65536 + 2 <= u16::MAX,
        wrapped_rows(help_widths@, screen.width).len() % 65536 + 2 <= u16::MAX,
    ensures
        ({
            let bars = bars_split(screen, bar_height(info_widths@, screen.width), bar_height(help_widths@, screen.width));
            let cols = columns_split(bars.1);
            r.0 == (bars.0, cols.0, cols.1, bars.2)
        }),
        r.1@ == wrapped_rows(help_widths@, screen.width),
{
    let ((info, main, help), _, help_rows) = screen_layout(screen, info_widths, help_widths);
    let (list, details) = split_columns(main);
    ((info, list, details, help), help_rows)
}

} // verus!
