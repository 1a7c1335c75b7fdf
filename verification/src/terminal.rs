//! The terminal screen: local echo, line mode with its history, scrolling
//! back, mouse selection and copying.
use vstd::prelude::*;
use crate::scrollback::{add_piece_exec, add_piece, all_lines, all_lines_exec, clipboard_text, ends_nl, ends_with_nl, good_piece, lemma_add_piece_wf, one_line, scrollback_text, scrollback_wf};
use crate::serial::NewlineEncoding;
use crate::state::{effects, App, Effect, EffectView, LineInput, SelectionState, TerminalView};
use crate::text::{bytes_of, push_char, views};
use vstd::string::StringExecFns;
use vstd::string::StringSliceAdditionalSpecFns;

verus! {

/// A printable ASCII byte, echoed as a highlighted character.
pub open spec fn printable(b: u8) -> bool {
    0x20 <= b <= 0x7e
}

/// The scrollback after a locally echoed byte: a carriage return ends an
/// unterminated last line, a printable byte is added like received text,
/// anything else leaves the scrollback alone.
pub open spec fn echo_scrollback(sb: Seq<Seq<char>>, b: u8) -> Seq<Seq<char>> {
    if b == 13 {
        if sb.len() > 0 && !ends_nl(sb.last()) {
            sb.update(sb.len() - 1, sb.last().push('\n'))
        } else {
            sb
        }
    } else if printable(b) {
        add_piece(sb, seq![b as char])
    } else {
        sb
    }
}

/// What the terminal emulator is given for a locally echoed byte.
pub open spec fn echo_effect(b: u8) -> EffectView {
    if b == 13 {
        EffectView::Feed(seq![13u8, 10u8])
    } else if printable(b) {
        EffectView::EchoChar(b)
    } else {
        EffectView::Feed(seq![b])
    }
}

/// The scrollback after echoing bytes one by one.
pub open spec fn echo_all(sb: Seq<Seq<char>>, bs: Seq<u8>) -> Seq<Seq<char>>
    decreases bs.len(),
{
    if bs.len() == 0 {
        sb
    } else {
        echo_scrollback(echo_all(sb, bs.drop_last()), bs.last())
    }
}

/// The line ending bytes for an encoding.
pub open spec fn newline_bytes(nl: NewlineEncoding) -> Seq<u8> {
    match nl {
        NewlineEncoding::CR => seq![13u8],
        NewlineEncoding::LF => seq![10u8],
        NewlineEncoding::CRLF => seq![13u8, 10u8],
    }
}

/// What the terminal emulator is given for bytes echoed one by one.
pub open spec fn echo_effects(bs: Seq<u8>) -> Seq<EffectView> {
    bs.map_values(|b: u8| echo_effect(b))
}

/// The history after a line is sent: a non-empty line that differs from
/// the newest entry is added.
pub open spec fn record_line(history: Seq<Seq<char>>, text: Seq<char>) -> Seq<Seq<char>> {
    if text.len() > 0 && (history.len() == 0 || history.last() != text) {
        history.push(text)
    } else {
        history
    }
}

/// The line editor as a value: buffer, history, browsing position, saved line.
pub open spec fn line_view(l: LineInput) -> (Seq<char>, Seq<Seq<char>>, Option<usize>, Seq<char>) {
    (l.buffer@, views(l.history@), l.history_pos, l.saved@)
}

/// The line editor after stepping one entry back in the history: the
/// first step saves the line being typed; there is no step past the
/// oldest entry.
pub open spec fn history_back(v: (Seq<char>, Seq<Seq<char>>, Option<usize>, Seq<char>)) -> (
    Seq<char>,
    Seq<Seq<char>>,
    Option<usize>,
    Seq<char>,
) {
    let (buffer, h, pos, saved) = v;
    if h.len() == 0 {
        v
    } else {
        match pos {
            None => (h[h.len() - 1], h, Some(0usize), buffer),
            Some(p) => if p + 1 < h.len() {
                (h[h.len() - 2 - p], h, Some((p + 1) as usize), saved)
            } else {
                v
            },
        }
    }
}

/// The line editor after stepping one entry forward in the history: past
/// the newest entry the saved line comes back.
pub open spec fn history_forward(v: (Seq<char>, Seq<Seq<char>>, Option<usize>, Seq<char>)) -> (
    Seq<char>,
    Seq<Seq<char>>,
    Option<usize>,
    Seq<char>,
) {
    let (buffer, h, pos, saved) = v;
    match pos {
        None => v,
        Some(p) => if p == 0 {
            (saved, h, None, seq![])
        } else {
            (h[h.len() - p], h, Some((p - 1) as usize), saved)
        },
    }
}

/// The line editor after `k` steps back in the history.
pub open spec fn back_steps(v: (Seq<char>, Seq<Seq<char>>, Option<usize>, Seq<char>), k: nat) -> (
    Seq<char>,
    Seq<Seq<char>>,
    Option<usize>,
    Seq<char>,
)
    decreases k,
{
    if k == 0 {
        v
    } else {
        history_back(back_steps(v, (k - 1) as nat))
    }
}

/// The line editor after `k` steps forward in the history.
pub open spec fn forward_steps(v: (Seq<char>, Seq<Seq<char>>, Option<usize>, Seq<char>), k: nat) -> (
    Seq<char>,
    Seq<Seq<char>>,
    Option<usize>,
    Seq<char>,
)
    decreases k,
{
    if k == 0 {
        v
    } else {
        history_forward(forward_steps(v, (k - 1) as nat))
    }
}

proof fn lemma_back_steps(v: (Seq<char>, Seq<Seq<char>>, Option<usize>, Seq<char>), k: nat)
    requires
        v.2 is None,
        1 <= k <= v.1.len(),
        v.1.len() <= usize::MAX,
    ensures
        back_steps(v, k) == (v.1[v.1.len() - k], v.1, Some((k - 1) as usize), v.0),
    decreases k,
{
    if k > 1 {
        lemma_back_steps(v, (k - 1) as nat);
        assert(back_steps(v, k) == history_back(back_steps(v, (k - 1) as nat)));
    } else {
        assert(back_steps(v, 0) == v);
        assert(back_steps(v, 1) == history_back(v));
    }
}

proof fn lemma_forward_steps(
    h: Seq<Seq<char>>,
    p: nat,
    saved: Seq<char>,
    buffer: Seq<char>,
    j: nat,
)
    requires
        p < h.len(),
        h.len() <= usize::MAX,
        buffer == h[h.len() - 1 - p],
        j <= p + 1,
    ensures
        j <= p ==> forward_steps((buffer, h, Some(p as usize), saved), j) == (
            h[h.len() - 1 - p + j],
            h,
            Some((p - j) as usize),
            saved,
        ),
        j == p + 1 ==> forward_steps((buffer, h, Some(p as usize), saved), j) == (
            saved,
            h,
            None::<usize>,
            Seq::<char>::empty(),
        ),
    decreases j,
{
    if j > 0 {
        lemma_forward_steps(h, p, saved, buffer, (j - 1) as nat);
        assert(forward_steps((buffer, h, Some(p as usize), saved), j) == history_forward(
            forward_steps((buffer, h, Some(p as usize), saved), (j - 1) as nat),
        ));
    }
}

/// Browsing the history: starting from a line being typed (not browsing),
/// `k` steps back (for `k` up to the number of entries) reach the `k`-th
/// newest entry; `j` steps forward from there reach the entry `j` newer,
/// and `k` steps forward bring back the line that was being typed, with
/// browsing ended.
pub proof fn law_history_steps(v: (Seq<char>, Seq<Seq<char>>, Option<usize>, Seq<char>), k: nat, j: nat)
    requires
        v.2 is None,
        1 <= k <= v.1.len(),
        v.1.len() <= usize::MAX,
        j <= k,
    ensures
        back_steps(v, k) == (v.1[v.1.len() - k], v.1, Some((k - 1) as usize), v.0),
        j < k ==> forward_steps(back_steps(v, k), j) == (
            v.1[v.1.len() - k + j],
            v.1,
            Some((k - 1 - j) as usize),
            v.0,
        ),
        forward_steps(back_steps(v, k), k) == (v.0, v.1, None::<usize>, Seq::<char>::empty()),
{
    lemma_back_steps(v, k);
    let h = v.1;
    lemma_forward_steps(h, (k - 1) as nat, v.0, h[h.len() - k], j);
    lemma_forward_steps(h, (k - 1) as nat, v.0, h[h.len() - k], k);
}

/// Stepping back through the history and forward again returns to the
/// line that was being typed, with browsing ended; deeper in the history,
/// a step back and a step forward return to the same entry.
pub proof fn law_history_round_trip(v: (Seq<char>, Seq<Seq<char>>, Option<usize>, Seq<char>))
    requires
        v.1.len() > 0,
        v.1.len() <= usize::MAX,
        v.2 matches Some(p) ==> p < v.1.len(),
    ensures
        v.2 is None ==> history_forward(history_back(v)) == (v.0, v.1, None::<usize>, Seq::<char>::empty()),
        v.2 matches Some(p) ==> (p + 1 < v.1.len() ==> history_forward(history_back(v)) == (
            v.1[v.1.len() - 1 - p],
            v.1,
            Some(p),
            v.3,
        )),
{
    if let Some(p) = v.2 {
        if p + 1 < v.1.len() {
            let b = history_back(v);
            assert(b == (v.1[v.1.len() - 2 - p], v.1, Some((p + 1) as usize), v.3));
            assert(history_forward(b) == (v.1[v.1.len() - (p + 1)], v.1, Some(p), v.3));
        }
    }
}

/// The cell-range of one visible line that a selection covers, clipped to
/// the line: `(from, to)` in characters.
pub open spec fn covered(len: int, row: int, start: (usize, usize), end: (usize, usize)) -> (int, int) {
    let from = if row == start.0 {
        start.1 as int
    } else {
        0
    };
    let to = if row == end.0 {
        if end.1 + 1 < len {
            end.1 + 1
        } else {
            len
        }
    } else {
        len
    };
    (from, to)
}

/// The selected part of one visible line.
pub open spec fn selected_part(line: Seq<char>, row: int, start: (usize, usize), end: (usize, usize)) -> Seq<char> {
    let (from, to) = covered(line.len() as int, row, start, end);
    if from < to {
        line.subrange(from, to)
    } else {
        seq![]
    }
}

/// The number of visible rows a selection from `start` to `end` covers.
pub open spec fn selected_rows(lines: Seq<Seq<char>>, start: (usize, usize), end: (usize, usize)) -> nat {
    let last = if end.0 + 1 < lines.len() {
        end.0 + 1
    } else {
        lines.len() as int
    };
    if last > start.0 {
        (last - start.0) as nat
    } else {
        0
    }
}

/// The selected part of each covered row, without trailing whitespace.
pub open spec fn selected_pieces(lines: Seq<Seq<char>>, start: (usize, usize), end: (usize, usize)) -> Seq<Seq<char>> {
    Seq::new(
        selected_rows(lines, start, end),
        |k: int| crate::text::trim_end(selected_part(lines[start.0 + k], start.0 + k, start, end)),
    )
}

/// The selected text: for each visible row from the start row to the end
/// row, its selected part without trailing whitespace, joined by line
/// feeds; rows past the visible lines are skipped.
pub open spec fn selection_text(lines: Seq<Seq<char>>, start: (usize, usize), end: (usize, usize)) -> Seq<char> {
    crate::text::join_nl(selected_pieces(lines, start, end))
}

/// What a selection from `start` to `end` (rows in order) copies: one piece
/// per visible row from the start row to the end row, joined by line feeds.
/// Every row strictly between the two is copied whole; the start row from
/// the start column to its end; the end row from its beginning through the
/// end column; a single row from the start column through the end column;
/// each piece without trailing whitespace.
pub proof fn law_selection_copies_rows(ls: Seq<Seq<char>>, start: (usize, usize), end: (usize, usize))
    requires
        start.0 <= end.0,
    ensures
        selection_text(ls, start, end) == crate::text::join_nl(selected_pieces(ls, start, end)),
        selected_pieces(ls, start, end).len() == (if end.0 < ls.len() {
            end.0 - start.0 + 1
        } else if start.0 < ls.len() {
            ls.len() - start.0
        } else {
            0
        }),
        forall|r: int|
            start.0 < r < end.0 && r < ls.len() ==> selected_pieces(ls, start, end)[r - start.0]
                == crate::text::trim_end(#[trigger] ls[r]),
        start.0 < end.0 && start.0 < ls.len() ==> selected_pieces(ls, start, end)[0] == crate::text::trim_end(
            ls[start.0 as int].subrange(
                if (start.1 as int) < ls[start.0 as int].len() {
                    start.1 as int
                } else {
                    ls[start.0 as int].len() as int
                },
                ls[start.0 as int].len() as int,
            ),
        ),
        start.0 < end.0 && end.0 < ls.len() ==> selected_pieces(ls, start, end)[end.0 - start.0]
            == crate::text::trim_end(
            ls[end.0 as int].take(
                if end.1 + 1 < ls[end.0 as int].len() {
                    end.1 + 1
                } else {
                    ls[end.0 as int].len() as int
                },
            ),
        ),
        start.0 == end.0 && end.0 < ls.len() ==> selected_pieces(ls, start, end)[0] == crate::text::trim_end(
            ls[end.0 as int].subrange(
                if (start.1 as int) < (if end.1 + 1 < ls[end.0 as int].len() {
                    end.1 + 1
                } else {
                    ls[end.0 as int].len() as int
                }) {
                    start.1 as int
                } else {
                    if end.1 + 1 < ls[end.0 as int].len() {
                        end.1 + 1
                    } else {
                        ls[end.0 as int].len() as int
                    }
                },
                if end.1 + 1 < ls[end.0 as int].len() {
                    end.1 + 1
                } else {
                    ls[end.0 as int].len() as int
                },
            ),
        ),
{
    let p = selected_pieces(ls, start, end);
    assert forall|r: int| start.0 < r < end.0 && r < ls.len() implies p[r - start.0]
        == crate::text::trim_end(#[trigger] ls[r]) by {
        assert(r == start.0 + (r - start.0));
        assert(selected_part(ls[r], r, start, end) =~= ls[r]);
    }
    if start.0 < end.0 && start.0 < ls.len() {
        let l = ls[start.0 as int];
        let from: int = if (start.1 as int) < l.len() { start.1 as int } else { l.len() as int };
        assert(selected_part(l, start.0 as int, start, end) =~= l.subrange(from, l.len() as int));
    }
    if start.0 < end.0 && end.0 < ls.len() {
        let l = ls[end.0 as int];
        let k = end.0 - start.0;
        assert(start.0 + k == end.0);
        let to: int = if end.1 + 1 < l.len() { end.1 + 1 } else { l.len() as int };
        assert(selected_part(l, end.0 as int, start, end) =~= l.take(to));
    }
    if start.0 == end.0 && end.0 < ls.len() {
        let l = ls[end.0 as int];
        let to: int = if end.1 + 1 < l.len() { end.1 + 1 } else { l.len() as int };
        let from: int = if (start.1 as int) < to { start.1 as int } else { to };
        assert(selected_part(l, end.0 as int, start, end) =~= l.subrange(from, to));
    }
}

/// The number of display lines of a scrollback.
pub open spec fn line_count(sb: Seq<Seq<char>>) -> int {
    all_lines(sb).len() as int
}

/// The scroll offset after moving by `delta` lines over `count` lines
/// with `height` rows visible: never below 0 and never past the top.
pub open spec fn clamped_offset(offset: int, delta: int, count: int, height: int) -> int {
    let max = if count > height {
        count - height
    } else {
        0
    };
    let n = offset + delta;
    if n < 0 {
        0
    } else if n > max {
        max
    } else {
        n
    }
}

/// The lines a scrolling move is measured against: the frozen copy, or
/// the scrollback when entering scrolling or not scrolled.
pub open spec fn scroll_source(v: TerminalView, delta: int) -> Seq<Seq<char>> {
    if v.scroll_offset == 0 && delta > 0 {
        views(v.scrollback@)
    } else {
        match v.frozen_lines {
            Some(f) => views(f@),
            None => views(v.scrollback@),
        }
    }
}

/// The view after scrolling by `delta` lines: the offset moves within the
/// lines it is measured against (never below 0 nor past the top), a copy of
/// the scrollback is frozen while scrolled back and dropped at the bottom.
pub open spec fn view_scrolled(v: TerminalView, delta: int, w: TerminalView) -> bool {
    &&& w.scroll_offset == clamped_offset(
        v.scroll_offset as int,
        delta,
        line_count(scroll_source(v, delta)),
        v.viewport_height as int,
    )
    &&& w.scroll_offset == 0 ==> w.frozen_lines is None
    &&& w.scroll_offset > 0 ==> (w.frozen_lines matches Some(f) && views(f@) == scroll_source(v, delta))
    &&& w == (TerminalView { scroll_offset: w.scroll_offset, frozen_lines: w.frozen_lines, ..v })
}

/// Scrolling by `delta` lines: the selection is cleared and the view
/// scrolls (see `view_scrolled`).
pub open spec fn scroll_step(a: App, delta: int, b: App) -> bool {
    &&& b.selection.anchor is None && b.selection.current is None && !b.selection.active
    &&& view_scrolled(a.view, delta, b.view)
    &&& b == (App { selection: b.selection, view: b.view, ..a })
}

/// Clearing the screen: an empty view and a fresh terminal emulator.
pub open spec fn flushed(a: App, b: App, effs: Seq<EffectView>) -> bool {
    &&& crate::state::fresh_view(b.view)
    &&& b == (App { view: b.view, ..a })
    &&& effs == seq![EffectView::ResetEmulator]
}

/// Local echo of typed bytes: nothing while paused; a single byte as
/// `echo_scrollback` and `echo_effect` say; longer sequences only go to
/// the terminal emulator.
pub open spec fn echoed(a: App, bytes: Seq<u8>, b: App, effs: Seq<EffectView>) -> bool {
    if a.paused {
        b == a && effs == Seq::<EffectView>::empty()
    } else if bytes.len() == 1 {
        &&& effs == seq![echo_effect(bytes[0])]
        &&& views(b.view.scrollback@) == echo_scrollback(views(a.view.scrollback@), bytes[0])
        &&& b == (App { view: TerminalView { scrollback: b.view.scrollback, ..a.view }, ..a })
    } else {
        b == a && effs == (if bytes.len() > 0 {
            seq![EffectView::Feed(bytes)]
        } else {
            seq![]
        })
    }
}

/// Sending the typed line: it is recorded in the history (unless empty or
/// the same as the newest entry), the editor is cleared, the view returns
/// to the live output, the line and a carriage return are echoed when local
/// echo is on, and the line's bytes followed by the outgoing line ending
/// are sent.
pub open spec fn line_sent(a: App, b: App, effs: Seq<EffectView>) -> bool {
    let text = a.line.buffer@;
    let tb = vstd::utf8::encode_utf8(text);
    let echo = a.local_echo && !a.paused;
    &&& b.line.buffer@ == Seq::<char>::empty()
    &&& views(b.line.history@) == record_line(views(a.line.history@), text)
    &&& b.line.history_pos is None
    &&& b.line.saved@ == Seq::<char>::empty()
    &&& views(b.view.scrollback@) == (if echo {
        echo_all(views(a.view.scrollback@), tb.push(13u8))
    } else {
        views(a.view.scrollback@)
    })
    &&& effs == (if echo {
        echo_effects(tb.push(13u8))
    } else {
        seq![]
    }) + (if !a.paused && a.connected {
        seq![EffectView::Write(tb + newline_bytes(a.outgoing_newline))]
    } else {
        seq![]
    })
    &&& b == (App {
        line: b.line,
        view: TerminalView { scrollback: b.view.scrollback, scroll_offset: 0, frozen_lines: None, ..a.view },
        ..a
    })
}

/// After a non-empty line is sent, the first step back in the history
/// recalls it, and a step forward again returns to the empty line.
pub proof fn law_sent_line_is_recalled(a: App, b: App, effs: Seq<EffectView>)
    requires
        line_sent(a, b, effs),
        a.line.buffer@.len() > 0,
    ensures
        history_back(line_view(b.line)).0 == a.line.buffer@,
        history_forward(history_back(line_view(b.line))).0 == Seq::<char>::empty(),
{
    let h = views(b.line.history@);
    assert(h.len() > 0 && h.last() == a.line.buffer@);
}

/// The bytes a sent line puts on the wire: while connected and not paused,
/// the last effect of sending a line writes the line's UTF-8 bytes followed
/// by the configured outgoing line ending (CR is 13, LF is 10, CRLF is 13
/// then 10), and no other effect writes to the device; while paused or
/// disconnected nothing is written at all.
pub proof fn law_sent_line_ends_with_configured_newline(a: App, b: App, effs: Seq<EffectView>)
    requires
        line_sent(a, b, effs),
    ensures
        !a.paused && a.connected ==> effs.len() > 0 && effs.last() == EffectView::Write(
            match a.outgoing_newline {
                NewlineEncoding::CR => vstd::utf8::encode_utf8(a.line.buffer@).push(13u8),
                NewlineEncoding::LF => vstd::utf8::encode_utf8(a.line.buffer@).push(10u8),
                NewlineEncoding::CRLF => vstd::utf8::encode_utf8(a.line.buffer@).push(13u8).push(10u8),
            },
        ),
        !a.paused && a.connected ==> forall|k: int| 0 <= k < effs.len() - 1 ==> !(#[trigger] effs[k] is Write),
        a.paused || !a.connected ==> forall|k: int| 0 <= k < effs.len() ==> !(#[trigger] effs[k] is Write),
{
    let tb = vstd::utf8::encode_utf8(a.line.buffer@);
    let echo = a.local_echo && !a.paused;
    let e = if echo {
        echo_effects(tb.push(13u8))
    } else {
        seq![]
    };
    assert forall|k: int| 0 <= k < e.len() implies !(#[trigger] e[k] is Write) by {
        let x = tb.push(13u8)[k];
        assert(e[k] == echo_effect(x));
    }
    if !a.paused && a.connected {
        let w = tb + newline_bytes(a.outgoing_newline);
        assert(effs == e + seq![EffectView::Write(w)]);
        match a.outgoing_newline {
            NewlineEncoding::CR => assert(w =~= tb.push(13u8)),
            NewlineEncoding::LF => assert(w =~= tb.push(10u8)),
            NewlineEncoding::CRLF => assert(w =~= tb.push(13u8).push(10u8)),
        }
        assert forall|k: int| 0 <= k < effs.len() - 1 implies !(#[trigger] effs[k] is Write) by {
            assert(effs[k] == e[k]);
        }
    } else {
        assert(effs =~= e);
    }
}

/// The text a selection covers (empty without one).
pub open spec fn selection_of(a: App) -> Seq<char> {
    match crate::state::selection_range(a.selection.anchor, a.selection.current) {
        Some((start, end)) => selection_text(views(a.view.visible_lines@), start, end),
        None => Seq::<char>::empty(),
    }
}

/// Ending a mouse drag: a selection of a single cell is removed; the text
/// of a larger one is copied, if not empty, and the selection stays.
pub open spec fn selection_finished(a: App, b: App, effs: Seq<EffectView>) -> bool {
    &&& !b.selection.active
    &&& a.selection.anchor == a.selection.current ==> b.selection.anchor is None && b.selection.current is None
        && effs == Seq::<EffectView>::empty()
    &&& a.selection.anchor != a.selection.current ==> b.selection.anchor == a.selection.anchor
        && b.selection.current == a.selection.current && effs == (if selection_of(a).len() > 0 {
        seq![EffectView::Copy(selection_of(a))]
    } else {
        seq![]
    })
    &&& b == (App { selection: b.selection, ..a })
}

fn clone_strings(v: &Vec<String>) -> (r: Vec<String>)
    ensures
        views(r@) == views(v@),
{
    let mut r: Vec<String> = Vec::new();
    let mut i: usize = 0;
    while i < v.len()
        invariant
            i <= v@.len(),
            views(r@) == views(v@).take(i as int),
        decreases v@.len() - i,
    {
        let s = String::from_str(v[i].as_str());
        assert(s@ == v@[i as int]@);
        let ghost before = r@;
        r.push(s);
        assert(r@ == before.push(s));
        assert(views(r@) =~= views(before).push(s@));
        assert(views(v@).take(i + 1) =~= views(v@).take(i as int).push(v@[i as int]@));
        i += 1;
    }
    assert(views(v@).take(v@.len() as int) =~= views(v@));
    r
}

impl LineInput {
    /// Steps one entry back in the history.
    pub fn back(&mut self)
        requires
            old(self).history_pos matches Some(p) ==> p < old(self).history@.len(),
        ensures
            final(self).history_pos matches Some(p) ==> p < final(self).history@.len(),
            line_view(*final(self)) == history_back(line_view(*old(self))),
            final(self).history == old(self).history,
    {
        let n = self.history.len();
        if n == 0 {
            return;
        }
        match self.history_pos {
            None => {
                self.saved = self.buffer.clone();
                self.history_pos = Some(0);
                self.buffer = self.history[n - 1].clone();
            },
            Some(p) => {
                if p + 1 < n {
                    self.history_pos = Some(p + 1);
                    self.buffer = self.history[n - 2 - p].clone();
                }
            },
        }
    }

    /// Takes the typed line out of the editor: it is recorded in the
    /// history unless empty or the same as the newest entry, and browsing
    /// ends.
    pub fn take_line(&mut self) -> (text: String)
        requires
            old(self).history_pos matches Some(p) ==> p < old(self).history@.len(),
        ensures
            text@ == old(self).buffer@,
            final(self).buffer@ == Seq::<char>::empty(),
            views(final(self).history@) == record_line(views(old(self).history@), text@),
            final(self).history_pos is None,
            final(self).saved@ == Seq::<char>::empty(),
    {
        let mut text = String::new();
        std::mem::swap(&mut text, &mut self.buffer);
        self.history_pos = None;
        self.saved = String::new();
        let n = self.history.len();
        let ghost h0 = views(self.history@);
        if !text.as_str().is_empty() && (n == 0 || self.history[n - 1] != text) {
            self.history.push(text.clone());
            assert(views(self.history@) =~= h0.push(text@));
        }
        text
    }

    /// Steps one entry forward in the history.
    pub fn forward(&mut self)
        requires
            old(self).history_pos matches Some(p) ==> p < old(self).history@.len(),
        ensures
            final(self).history_pos matches Some(p) ==> p < final(self).history@.len(),
            line_view(*final(self)) == history_forward(line_view(*old(self))),
            final(self).history == old(self).history,
    {
        match self.history_pos {
            None => {},
            Some(p) => {
                if p == 0 {
                    self.history_pos = None;
                    let mut s = String::new();
                    std::mem::swap(&mut s, &mut self.saved);
                    self.buffer = s;
                    assert(self.saved@ =~= Seq::<char>::empty());
                } else {
                    self.history_pos = Some(p - 1);
                    let n = self.history.len();
                    self.buffer = self.history[n - p].clone();
                }
            },
        }
    }
}

impl TerminalView {
    /// Scrolls by `delta` lines (see `view_scrolled`).
    pub fn scroll_by(&mut self, delta: i32)
        requires
            scrollback_wf(views(old(self).scrollback@)),
            old(self).frozen_lines is Some <==> old(self).scroll_offset > 0,
            old(self).frozen_lines matches Some(f) ==> scrollback_wf(views(f@)),
            line_count(scroll_source(*old(self), delta as int)) - old(self).viewport_height <= i32::MAX,
            old(self).scroll_offset + delta <= i32::MAX,
            old(self).scroll_offset <= i32::MAX,
        ensures
            view_scrolled(*old(self), delta as int, *final(self)),
            final(self).frozen_lines is Some <==> final(self).scroll_offset > 0,
            final(self).frozen_lines matches Some(f) ==> scrollback_wf(views(f@)),
    {
        if self.scroll_offset == 0 && delta > 0 {
            self.frozen_lines = Some(clone_strings(&self.scrollback));
        }
        let count: usize = match &self.frozen_lines {
            Some(f) => all_lines_exec(f).len(),
            None => all_lines_exec(&self.scrollback).len(),
        };
        assert(self.frozen_lines matches Some(f) ==> views(f@) == scroll_source(*old(self), delta as int));
        assert(self.frozen_lines is None ==> views(self.scrollback@) == scroll_source(*old(self), delta as int));
        let max: i64 = if count > self.viewport_height {
            (count - self.viewport_height) as i64
        } else {
            0
        };
        let n: i64 = self.scroll_offset as i64 + delta as i64;
        let off: i64 = if n < 0 {
            0
        } else if n > max {
            max
        } else {
            n
        };
        self.scroll_offset = off as usize;
        if self.scroll_offset == 0 {
            self.frozen_lines = None;
        }
    }
}

impl App {
    /// Returns to the live output.
    pub fn scroll_to_bottom(&mut self)
        ensures
            *final(self) == (App {
                view: TerminalView { scroll_offset: 0, frozen_lines: None, ..old(self).view },
                ..*old(self)
            }),
    {
        self.view.scroll_offset = 0;
        self.view.frozen_lines = None;
    }

    /// Clears the screen: the scrollback and scroll position start over and
    /// the terminal emulator is replaced.
    pub fn flush_screen(&mut self) -> (r: Vec<Effect>)
        ensures
            flushed(*old(self), *final(self), effects(r@)),

    {
        self.view = TerminalView::new();
        let mut r: Vec<Effect> = Vec::new();
        r.push(Effect::ResetEmulator);
        assert(effects(r@) =~= seq![EffectView::ResetEmulator]);
        r
    }

    /// Scrolls back (`delta > 0`) or forward by `delta` lines.  Entering
    /// scrolling freezes a copy of the scrollback so arriving output does
    /// not move the view; reaching the bottom drops the copy.  The selection
    /// is cleared.
    pub fn scroll(&mut self, delta: i32)
        requires
            old(self).inv(),
            line_count(scroll_source(old(self).view, delta as int)) - old(self).view.viewport_height <= i32::MAX,
            old(self).view.scroll_offset + delta <= i32::MAX,
            old(self).view.scroll_offset <= i32::MAX,
        ensures
            final(self).inv(),
            scroll_step(*old(self), delta as int, *final(self)),
    {
        self.selection.clear();
        self.view.scroll_by(delta);
    }

    /// Copies the scrollback's text to the clipboard, without leading and
    /// trailing blank lines.
    pub fn copy_to_clipboard(&self) -> (r: Vec<Effect>)
        ensures
            effects(r@) == seq![EffectView::Copy(clipboard_text(views(self.view.scrollback@)))],
    {
        let text = scrollback_text(&self.view.scrollback);
        let mut r: Vec<Effect> = Vec::new();
        r.push(Effect::Copy(text));
        assert(effects(r@) =~= seq![EffectView::Copy(clipboard_text(views(self.view.scrollback@)))]);
        r
    }

    /// Echoes one typed byte locally (see `echo_scrollback` and `echo_effect`).
    fn echo_byte(&mut self, b: u8) -> (e: Effect)
        requires
            old(self).inv(),
        ensures
            final(self).inv(),
            e@ == echo_effect(b),
            views(final(self).view.scrollback@) == echo_scrollback(views(old(self).view.scrollback@), b),
            *final(self) == (App {
                view: TerminalView { scrollback: final(self).view.scrollback, ..old(self).view },
                ..*old(self)
            }),
    {
        let ghost sb = views(self.view.scrollback@);
        let n = self.view.scrollback.len();
        if b == 13 {
            if n > 0 && !ends_with_nl(&self.view.scrollback[n - 1]) {
                let mut last = self.view.scrollback.pop().unwrap();
                push_char(&mut last, '\n');
                self.view.scrollback.push(last);
                proof {
                    let r = views(self.view.scrollback@);
                    assert(r =~= sb.update(sb.len() - 1, sb.last().push('\n')));
                    let l = sb.last();
                    assert(sb[sb.len() - 1] == l);
                    assert(one_line(l.push('\n'))) by {
                        assert forall|j: int| 0 <= j < l.push('\n').len() - 1 implies l.push('\n')[j] != '\n' by {
                            if j == l.len() - 1 {
                                assert(!ends_nl(l));
                            } else {
                                assert(one_line(l));
                            }
                        }
                    }
                    assert forall|i: int| 0 <= i < r.len() implies (#[trigger] r[i]).len() > 0 && one_line(r[i]) by {
                        if i < r.len() - 1 {
                            assert(r[i] == sb[i]);
                        }
                    }
                    assert forall|i: int| 0 <= i < r.len() - 1 implies ends_nl(#[trigger] r[i]) by {
                        assert(r[i] == sb[i]);
                    }
                }
            }
            let mut feed: Vec<u8> = Vec::new();
            feed.push(13u8);
            feed.push(10u8);
            assert(feed@ =~= seq![13u8, 10u8]);
            Effect::Feed(feed)
        } else if 0x20 <= b && b <= 0x7e {
            let c = b as char;
            let one = [c];
            proof {
                assert(good_piece(seq![c]));
                lemma_add_piece_wf(sb, seq![c]);
                assert(one@ == seq![c]);
            }
            crate::scrollback::add_piece_exec(&mut self.view.scrollback, &one);
            Effect::EchoChar(b)
        } else {
            let mut feed: Vec<u8> = Vec::new();
            feed.push(b);
            assert(feed@ =~= seq![b]);
            Effect::Feed(feed)
        }
    }

    /// Echoes typed bytes locally, unless paused: a single byte updates the
    /// scrollback and the terminal emulator as `echo_scrollback` and
    /// `echo_effect` say; longer sequences (cursor keys and the like) are
    /// only fed to the terminal emulator.
    pub fn echo_local(&mut self, bytes: &[u8]) -> (r: Vec<Effect>)
        requires
            old(self).inv(),
        ensures
            final(self).inv(),
            echoed(*old(self), bytes@, *final(self), effects(r@)),

    {
        let mut r: Vec<Effect> = Vec::new();
        if self.paused {
            assert(effects(r@) =~= Seq::<EffectView>::empty());
            return r;
        }
        if bytes.len() == 1 {
            let e = self.echo_byte(bytes[0]);
            r.push(e);
            assert(effects(r@) =~= seq![echo_effect(bytes@[0])]);
        } else if bytes.len() > 0 {
            r.push(Effect::Feed(vstd::slice::slice_to_vec(bytes)));
            assert(effects(r@) =~= seq![EffectView::Feed(bytes@)]);
        } else {
            assert(effects(r@) =~= Seq::<EffectView>::empty());
        }
        r
    }

    /// Steps one entry back in the line history.
    pub fn history_prev(&mut self)
        requires
            old(self).inv(),
        ensures
            final(self).inv(),
            line_view(final(self).line) == history_back(line_view(old(self).line)),
            *final(self) == (App { line: final(self).line, ..*old(self) }),
    {
        self.line.back();
    }

    /// Steps one entry forward in the line history; past the newest entry
    /// the line that was being typed comes back.
    pub fn history_next(&mut self)
        requires
            old(self).inv(),
        ensures
            final(self).inv(),
            line_view(final(self).line) == history_forward(line_view(old(self).line)),
            *final(self) == (App { line: final(self).line, ..*old(self) }),
    {
        self.line.forward();
    }

    /// Echoes bytes one by one.
    fn echo_bytes(&mut self, tb: &[u8]) -> (r: Vec<Effect>)
        requires
            old(self).inv(),
        ensures
            final(self).inv(),
            views(final(self).view.scrollback@) == echo_all(views(old(self).view.scrollback@), tb@),
            effects(r@) == echo_effects(tb@),
            *final(self) == (App {
                view: TerminalView { scrollback: final(self).view.scrollback, ..old(self).view },
                ..*old(self)
            }),
    {
        let mut r: Vec<Effect> = Vec::new();
        let ghost sb0 = views(self.view.scrollback@);
        let mut i: usize = 0;
        while i < tb.len()
            invariant
                i <= tb@.len(),
                self.inv(),
                views(self.view.scrollback@) == echo_all(sb0, tb@.take(i as int)),
                effects(r@) == echo_effects(tb@.take(i as int)),
                *self == (App {
                    view: TerminalView { scrollback: self.view.scrollback, ..old(self).view },
                    ..*old(self)
                }),
            decreases tb@.len() - i,
        {
            let e = self.echo_byte(tb[i]);
            let ghost before = r@;
            r.push(e);
            proof {
                assert(tb@.take(i + 1).drop_last() == tb@.take(i as int));
                assert(effects(r@) =~= effects(before).push(echo_effect(tb@[i as int])));
                assert(echo_effects(tb@.take(i + 1)) =~= echo_effects(tb@.take(i as int)).push(
                    echo_effect(tb@[i as int]),
                ));
            }
            i += 1;
        }
        assert(tb@.take(tb@.len() as int) == tb@);
        r
    }

    /// Sends the line typed in line mode: the line is recorded in the
    /// history (unless empty or the same as the newest entry), the editor
    /// is cleared, the view returns to the live output, the line and a
    /// carriage return are echoed when local echo is on, and the line's
    /// bytes followed by the outgoing line ending are sent.
    pub fn send_line(&mut self) -> (r: Vec<Effect>)
        requires
            old(self).inv(),
        ensures
            final(self).inv(),
            line_sent(*old(self), *final(self), effects(r@)),

    {
        let text = self.line.take_line();
        self.scroll_to_bottom();
        let mut tb = bytes_of(text.as_str());
        let mut r: Vec<Effect> = Vec::new();
        if self.local_echo && !self.paused {
            let ghost t0 = tb@;
            tb.push(13u8);
            r = self.echo_bytes(tb.as_slice());
            tb.pop();
            assert(tb@ =~= t0);
        } else {
            assert(effects(r@) =~= Seq::<EffectView>::empty());
        }
        let ghost echoed = effects(r@);
        let mut bytes = tb;
        match self.outgoing_newline {
            NewlineEncoding::CR => {
                bytes.push(13u8);
            },
            NewlineEncoding::LF => {
                bytes.push(10u8);
            },
            NewlineEncoding::CRLF => {
                bytes.push(13u8);
                bytes.push(10u8);
            },
        }
        assert(bytes@ =~= vstd::utf8::encode_utf8(text@) + newline_bytes(self.outgoing_newline));
        let mut sent = self.send_bytes(bytes);
        let ghost sent_view = effects(sent@);
        let ghost before = r@;
        r.append(&mut sent);
        assert(effects(r@) =~= effects(before) + sent_view);
        r
    }

    /// The text under the mouse selection (empty without one).
    pub fn selected_text(&self) -> (t: String)
        ensures
            t@ == match crate::state::selection_range(self.selection.anchor, self.selection.current) {
                Some((start, end)) => selection_text(views(self.view.visible_lines@), start, end),
                None => Seq::<char>::empty(),
            },
    {
        match self.selection.range() {
            Some((start, end)) => selection_text_exec(&self.view.visible_lines, start, end),
            None => String::new(),
        }
    }

    /// Ends a mouse drag: a selection of a single cell is removed; the text
    /// of a larger one is copied to the clipboard, if not empty.
    pub fn finish_selection(&mut self) -> (r: Vec<Effect>)
        ensures
            selection_finished(*old(self), *final(self), effects(r@)),

    {
        self.selection.active = false;
        let same = match (self.selection.anchor, self.selection.current) {
            (Some(a), Some(b)) => a.0 == b.0 && a.1 == b.1,
            (None, None) => true,
            _ => false,
        };
        let mut r: Vec<Effect> = Vec::new();
        if same {
            self.selection.clear();
            assert(effects(r@) =~= Seq::<EffectView>::empty());
            return r;
        }
        let text = self.selected_text();
        if !text.as_str().is_empty() {
            let ghost t = text@;
            r.push(Effect::Copy(text));
            assert(effects(r@) =~= seq![EffectView::Copy(t)]);
        } else {
            assert(effects(r@) =~= Seq::<EffectView>::empty());
        }
        r
    }
}

/// The selected text of visible lines between two cells.
pub fn selection_text_exec(lines: &Vec<String>, start: (usize, usize), end: (usize, usize)) -> (t: String)
    ensures
        t@ == selection_text(views(lines@), start, end),
{
    let ghost ls = views(lines@);
    let last: usize = if end.0 < lines.len() && end.0 + 1 < lines.len() {
        end.0 + 1
    } else {
        lines.len()
    };
    let ghost spec_last = if end.0 + 1 < ls.len() {
        end.0 + 1
    } else {
        ls.len() as int
    };
    assert(last == spec_last);
    let n: usize = if last > start.0 {
        last - start.0
    } else {
        0
    };
    assert(n > 0 ==> start.0 + n == last && last <= lines@.len());
    let ghost want = selected_pieces(ls, start, end);
    assert(n == selected_rows(ls, start, end));
    let mut parts: Vec<Vec<char>> = Vec::new();
    let mut k: usize = 0;
    while k < n
        invariant
            k <= n,
            n > 0 ==> start.0 + n <= lines@.len(),
            lines@.len() <= usize::MAX,
            want == selected_pieces(ls, start, end),
            want.len() == n,
            ls == views(lines@),
            crate::text::cviews(parts@) == want.take(k as int),
        decreases n - k,
    {
        let row = start.0 + k;
        let cs = crate::text::chars_of(lines[row].as_str());
        let len = cs.len();
        let from: usize = if row == start.0 {
            start.1
        } else {
            0
        };
        let to: usize = if row == end.0 {
            if end.1 < len && end.1 + 1 < len {
                end.1 + 1
            } else {
                len
            }
        } else {
            len
        };
        let piece: Vec<char> = if from < to {
            vstd::slice::slice_to_vec(vstd::slice::slice_subrange(cs.as_slice(), from, to))
        } else {
            Vec::new()
        };
        assert(piece@ =~= selected_part(ls[row as int], row as int, start, end));
        let trimmed = crate::text::trim_end_chars(piece.as_slice());
        assert(want[k as int] == crate::text::trim_end(selected_part(ls[row as int], row as int, start, end)));
        assert(trimmed@ == want[k as int]);
        let ghost before = parts@;
        parts.push(trimmed);
        assert(crate::text::cviews(parts@) =~= crate::text::cviews(before).push(trimmed@));
        assert(want.take(k + 1) =~= want.take(k as int).push(want[k as int]));
        k += 1;
    }
    assert(want.take(n as int) =~= want);
    crate::text::join_lines(parts.as_slice())
}

} // verus!
