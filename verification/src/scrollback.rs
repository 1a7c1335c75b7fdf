//! The scrollback buffer: how received text is cut into lines, how it is
//! appended, and the byte stream handed to the terminal emulator.
use vstd::prelude::*;
use crate::text::{views, cviews, chars_of, push_chars, string_of, is_blank, is_blank_chars, join_nl, join_lines};
use crate::serial::NewlineEncoding;

verus! {

broadcast use vstd::seq_lib::group_seq_properties;

/// The most entries the scrollback keeps; older ones are dropped first.
pub const MAX_SCROLLBACK: usize = 10000;

/// All characters of a sequence of pieces, in order.
pub open spec fn concat_all(s: Seq<Seq<char>>) -> Seq<char>
    decreases s.len(),
{
    if s.len() == 0 {
        seq![]
    } else {
        concat_all(s.drop_last()) + s.last()
    }
}

/// `s` ends with a line feed.
pub open spec fn ends_nl(s: Seq<char>) -> bool {
    s.len() > 0 && s.last() == '\n'
}

/// The pieces that `str::split_inclusive('\n')` yields for `cur + rest`,
/// where `cur` is a piece already begun: each piece ends just after a line
/// feed, except a non-empty remainder at the end.
pub open spec fn pieces_from(cur: Seq<char>, rest: Seq<char>) -> Seq<Seq<char>>
    decreases rest.len(),
{
    if rest.len() == 0 {
        if cur.len() == 0 {
            seq![]
        } else {
            seq![cur]
        }
    } else if rest[0] == '\n' {
        seq![cur.push('\n')] + pieces_from(seq![], rest.drop_first())
    } else {
        pieces_from(cur.push(rest[0]), rest.drop_first())
    }
}

/// The pieces of `s` split after each line feed (`split_inclusive('\n')`).
pub open spec fn pieces(s: Seq<char>) -> Seq<Seq<char>> {
    pieces_from(seq![], s)
}

/// A piece without its final line feed.
pub open spec fn strip_nl(c: Seq<char>) -> Seq<char> {
    if ends_nl(c) {
        c.drop_last()
    } else {
        c
    }
}

/// The display lines of one scrollback entry.
pub open spec fn lines_of(s: Seq<char>) -> Seq<Seq<char>> {
    pieces(s).map_values(|c: Seq<char>| strip_nl(c))
}

/// The display lines of a whole scrollback, entry after entry.
pub open spec fn all_lines(sb: Seq<Seq<char>>) -> Seq<Seq<char>>
    decreases sb.len(),
{
    if sb.len() == 0 {
        seq![]
    } else {
        all_lines(sb.drop_last()) + lines_of(sb.last())
    }
}

/// A line with no line feed except, possibly, a final one.
pub open spec fn one_line(s: Seq<char>) -> bool {
    forall|j: int| 0 <= j < s.len() - 1 ==> s[j] != '\n'
}

/// The shape every scrollback keeps: entries are non-empty single lines,
/// and every entry but the last is terminated by a line feed.
pub open spec fn scrollback_wf(sb: Seq<Seq<char>>) -> bool {
    &&& forall|i: int| 0 <= i < sb.len() ==> (#[trigger] sb[i]).len() > 0 && one_line(sb[i])
    &&& forall|i: int| 0 <= i < sb.len() - 1 ==> ends_nl(#[trigger] sb[i])
}

/// Adds one piece: it continues an unterminated last entry, or starts a new one.
pub open spec fn add_piece(sb: Seq<Seq<char>>, c: Seq<char>) -> Seq<Seq<char>> {
    if sb.len() > 0 && !ends_nl(sb.last()) {
        sb.update(sb.len() - 1, sb.last() + c)
    } else {
        sb.push(c)
    }
}

/// Adds pieces in order.
pub open spec fn add_pieces(sb: Seq<Seq<char>>, cs: Seq<Seq<char>>) -> Seq<Seq<char>>
    decreases cs.len(),
{
    if cs.len() == 0 {
        sb
    } else {
        add_piece(add_pieces(sb, cs.drop_last()), cs.last())
    }
}

/// Keeps at most the newest `max` entries.
pub open spec fn keep_newest(sb: Seq<Seq<char>>, max: nat) -> Seq<Seq<char>> {
    if sb.len() > max {
        sb.skip(sb.len() - max)
    } else {
        sb
    }
}

/// The scrollback after `text` is received.
pub open spec fn append_text(sb: Seq<Seq<char>>, text: Seq<char>) -> Seq<Seq<char>> {
    keep_newest(add_pieces(sb, pieces(text)), MAX_SCROLLBACK as nat)
}

/// `s` with every carriage return turned into a line feed.
pub open spec fn cr_to_lf(s: Seq<char>) -> Seq<char> {
    s.map_values(|c: char| if c == '\r' { '\n' } else { c })
}

/// `s` with every CR LF pair, taken left to right, turned into one line feed
/// (what `str::replace("\r\n", "\n")` does).
pub open spec fn crlf_to_lf(s: Seq<char>) -> Seq<char>
    decreases s.len(),
{
    if s.len() == 0 {
        seq![]
    } else if s.len() >= 2 && s[0] == '\r' && s[1] == '\n' {
        seq!['\n'] + crlf_to_lf(s.skip(2))
    } else {
        seq![s[0]] + crlf_to_lf(s.drop_first())
    }
}

/// Received text with its line endings turned into line feeds.
pub open spec fn normalize_text(s: Seq<char>, nl: NewlineEncoding) -> Seq<char> {
    match nl {
        NewlineEncoding::CR => cr_to_lf(s),
        NewlineEncoding::LF => s,
        NewlineEncoding::CRLF => crlf_to_lf(s),
    }
}

/// One byte as the terminal emulator receives it: the byte that ends a
/// line is widened to CR LF.
pub open spec fn widen_byte(b: u8, target: u8) -> Seq<u8> {
    if b == target {
        seq![13u8, 10u8]
    } else {
        seq![b]
    }
}

/// Every occurrence of `target` widened to CR LF.
pub open spec fn widen(bytes: Seq<u8>, target: u8) -> Seq<u8>
    decreases bytes.len(),
{
    if bytes.len() == 0 {
        seq![]
    } else {
        widen(bytes.drop_last(), target) + widen_byte(bytes.last(), target)
    }
}

/// The bytes fed to the terminal emulator for received `bytes`: with CR LF
/// endings they pass unchanged, otherwise each line ending becomes CR LF.
pub open spec fn parser_bytes(bytes: Seq<u8>, nl: NewlineEncoding) -> Seq<u8> {
    match nl {
        NewlineEncoding::CRLF => bytes,
        NewlineEncoding::CR => widen(bytes, 13),
        NewlineEncoding::LF => widen(bytes, 10),
    }
}

fn widen_exec(bytes: &[u8], target: u8) -> (out: Vec<u8>)
    ensures
        out@ == widen(bytes@, target),
{
    let mut out: Vec<u8> = Vec::new();
    let mut i: usize = 0;
    while i < bytes.len()
        invariant
            i <= bytes.len(),
            out@ == widen(bytes@.take(i as int), target),
        decreases bytes.len() - i,
    {
        let b = bytes[i];
        if b == target {
            out.push(13u8);
            out.push(10u8);
        } else {
            out.push(b);
        }
        assert(bytes@.take(i + 1).drop_last() == bytes@.take(i as int));
        i += 1;
    }
    assert(bytes@.take(bytes.len() as int) == bytes@);
    out
}

/// The bytes to feed the terminal emulator for received `bytes`.
pub fn normalize_newlines_for_parser(bytes: &[u8], newline: NewlineEncoding) -> (out: Vec<u8>)
    ensures
        out@ == parser_bytes(bytes@, newline),
{
    match newline {
        NewlineEncoding::CRLF => vstd::slice::slice_to_vec(bytes),
        NewlineEncoding::CR => widen_exec(bytes, 13),
        NewlineEncoding::LF => widen_exec(bytes, 10),
    }
}

fn cr_to_lf_exec(s: &[char]) -> (out: Vec<char>)
    ensures
        out@ == cr_to_lf(s@),
{
    let mut out: Vec<char> = Vec::new();
    let mut i: usize = 0;
    while i < s.len()
        invariant
            i <= s.len(),
            out@ == cr_to_lf(s@.take(i as int)),
        decreases s.len() - i,
    {
        let c = s[i];
        out.push(if c == '\r' { '\n' } else { c });
        assert(cr_to_lf(s@.take(i + 1)) =~= cr_to_lf(s@.take(i as int)).push(
            if c == '\r' { '\n' } else { c },
        ));
        i += 1;
    }
    assert(s@.take(s.len() as int) == s@);
    out
}

fn crlf_to_lf_exec(s: &[char]) -> (out: Vec<char>)
    ensures
        out@ == crlf_to_lf(s@),
{
    let mut out: Vec<char> = Vec::new();
    let mut i: usize = 0;
    while i < s.len()
        invariant
            i <= s.len(),
            crlf_to_lf(s@) == out@ + crlf_to_lf(s@.skip(i as int)),
        decreases s.len() - i,
    {
        let ghost rest = s@.skip(i as int);
        if i + 1 < s.len() && s[i] == '\r' && s[i + 1] == '\n' {
            out.push('\n');
            assert(rest.skip(2) == s@.skip(i + 2));
            i += 2;
        } else {
            out.push(s[i]);
            assert(rest.drop_first() == s@.skip(i + 1));
            i += 1;
        }
    }
    assert(s@.skip(s.len() as int) =~= Seq::<char>::empty());
    out
}

/// Received text with its line endings turned into line feeds.
pub fn normalize_text_exec(s: &[char], nl: NewlineEncoding) -> (out: Vec<char>)
    ensures
        out@ == normalize_text(s@, nl),
{
    match nl {
        NewlineEncoding::CR => cr_to_lf_exec(s),
        NewlineEncoding::LF => vstd::slice::slice_to_vec(s),
        NewlineEncoding::CRLF => crlf_to_lf_exec(s),
    }
}

/// Whether a string ends with a line feed.
pub fn ends_with_nl(s: &String) -> (r: bool)
    ensures
        r == ends_nl(s@),
{
    let cs = chars_of(s.as_str());
    cs.len() > 0 && cs[cs.len() - 1] == '\n'
}

/// Adds one piece to the scrollback.
pub fn add_piece_exec(sb: &mut Vec<String>, c: &[char])
    ensures
        views(final(sb)@) == add_piece(views(old(sb)@), c@),
{
    let n = sb.len();
    if n > 0 && !ends_with_nl(&sb[n - 1]) {
        let mut last = sb.pop().unwrap();
        push_chars(&mut last, c);
        sb.push(last);
        assert(views(sb@) =~= add_piece(views(old(sb)@), c@));
    } else {
        sb.push(string_of(c));
        assert(views(sb@) =~= add_piece(views(old(sb)@), c@));
    }
}

proof fn lemma_pieces_step(cur: Seq<char>, rest: Seq<char>)
    requires
        rest.len() > 0,
    ensures
        rest[0] == '\n' ==> pieces_from(cur, rest) == seq![cur.push('\n')] + pieces_from(
            seq![],
            rest.drop_first(),
        ),
        rest[0] != '\n' ==> pieces_from(cur, rest) == pieces_from(cur.push(rest[0]), rest.drop_first()),
{
}

/// Appends received text to the scrollback and drops the oldest entries
/// beyond `MAX_SCROLLBACK`.
pub fn append_to_scrollback(sb: &mut Vec<String>, text: &[char])
    ensures
        views(final(sb)@) == append_text(views(old(sb)@), text@),
{
    let ghost sb0 = views(sb@);
    let ghost mut emitted: Seq<Seq<char>> = seq![];
    let mut cur: Vec<char> = Vec::new();
    let mut i: usize = 0;
    while i < text.len()
        invariant
            i <= text.len(),
            pieces(text@) == emitted + pieces_from(cur@, text@.skip(i as int)),
            views(sb@) == add_pieces(sb0, emitted),
        decreases text.len() - i,
    {
        let c = text[i];
        let ghost rest = text@.skip(i as int);
        proof {
            lemma_pieces_step(cur@, rest);
            assert(rest.drop_first() == text@.skip(i + 1));
        }
        cur.push(c);
        if c == '\n' {
            add_piece_exec(sb, &cur);
            proof {
                let e2 = emitted.push(cur@);
                assert(e2.drop_last() == emitted);
                assert(emitted + (seq![cur@] + pieces_from(seq![], rest.drop_first())) =~= e2
                    + pieces_from(seq![], rest.drop_first()));
                emitted = e2;
            }
            cur = Vec::new();
        }
        i += 1;
    }
    proof {
        assert(text@.skip(text.len() as int) =~= Seq::<char>::empty());
    }
    if cur.len() > 0 {
        add_piece_exec(sb, &cur);
        proof {
            let e2 = emitted.push(cur@);
            assert(e2.drop_last() == emitted);
            assert(emitted + seq![cur@] =~= e2);
            emitted = e2;
        }
    } else {
        assert(emitted + Seq::<Seq<char>>::empty() =~= emitted);
    }
    assert(views(sb@) == add_pieces(sb0, pieces(text@)));
    if sb.len() > MAX_SCROLLBACK {
        let tail = sb.split_off(sb.len() - MAX_SCROLLBACK);
        *sb = tail;
        assert(views(sb@) =~= keep_newest(add_pieces(sb0, pieces(text@)), MAX_SCROLLBACK as nat));
    }
}

proof fn lemma_concat_all_add(a: Seq<Seq<char>>, b: Seq<Seq<char>>)
    ensures
        concat_all(a + b) == concat_all(a) + concat_all(b),
    decreases b.len(),
{
    if b.len() == 0 {
        assert(a + b =~= a);
    } else {
        lemma_concat_all_add(a, b.drop_last());
        assert((a + b).drop_last() =~= a + b.drop_last());
        assert((a + b).last() == b.last());
    }
}

proof fn lemma_concat_single(x: Seq<char>)
    ensures
        concat_all(seq![x]) == x,
{
    assert(seq![x].drop_last() =~= Seq::<Seq<char>>::empty());
    assert(concat_all(Seq::<Seq<char>>::empty()) == Seq::<char>::empty());
    assert(Seq::<char>::empty() + x =~= x);
}

proof fn lemma_concat_add_piece(sb: Seq<Seq<char>>, c: Seq<char>)
    ensures
        concat_all(add_piece(sb, c)) == concat_all(sb) + c,
{
    if sb.len() > 0 && !ends_nl(sb.last()) {
        let u = sb.update(sb.len() - 1, sb.last() + c);
        assert(u.drop_last() =~= sb.drop_last());
        assert(concat_all(sb) == concat_all(sb.drop_last()) + sb.last());
    } else {
        assert(sb.push(c).drop_last() =~= sb);
    }
}

proof fn lemma_concat_add_pieces(sb: Seq<Seq<char>>, cs: Seq<Seq<char>>)
    ensures
        concat_all(add_pieces(sb, cs)) == concat_all(sb) + concat_all(cs),
    decreases cs.len(),
{
    if cs.len() > 0 {
        lemma_concat_add_pieces(sb, cs.drop_last());
        lemma_concat_add_piece(add_pieces(sb, cs.drop_last()), cs.last());
    }
}

proof fn lemma_concat_pieces_from(cur: Seq<char>, rest: Seq<char>)
    ensures
        concat_all(pieces_from(cur, rest)) == cur + rest,
    decreases rest.len(),
{
    if rest.len() == 0 {
        assert(cur + rest =~= cur);
        if cur.len() != 0 {
            assert(seq![cur].drop_last() =~= Seq::<Seq<char>>::empty());
            lemma_concat_single(cur);
        } else {
            assert(concat_all(pieces_from(cur, rest)) == cur + rest);
        }
    } else if rest[0] == '\n' {
        lemma_concat_pieces_from(seq![], rest.drop_first());
        lemma_concat_all_add(seq![cur.push('\n')], pieces_from(seq![], rest.drop_first()));
        lemma_concat_single(cur.push('\n'));
        assert(seq![cur.push('\n')].drop_last() =~= Seq::<Seq<char>>::empty());
        assert(cur.push('\n') + (Seq::<char>::empty() + rest.drop_first()) =~= cur + rest);
        assert(concat_all(pieces_from(cur, rest)) == cur + rest);
    } else {
        lemma_concat_pieces_from(cur.push(rest[0]), rest.drop_first());
        assert(cur.push(rest[0]) + rest.drop_first() =~= cur + rest);
        assert(concat_all(pieces_from(cur, rest)) == cur + rest);
    }
}

/// A piece that may be added to a well-formed scrollback.
pub open spec fn good_piece(c: Seq<char>) -> bool {
    c.len() > 0 && one_line(c)
}

proof fn lemma_pieces_from_good(cur: Seq<char>, rest: Seq<char>)
    requires
        forall|j: int| 0 <= j < cur.len() ==> cur[j] != '\n',
    ensures
        forall|i: int|
            0 <= i < pieces_from(cur, rest).len() ==> good_piece(#[trigger] pieces_from(cur, rest)[i]),
    decreases rest.len(),
{
    if rest.len() == 0 {
        if cur.len() != 0 {
            assert(pieces_from(cur, rest) == seq![cur]);
            assert(pieces_from(cur, rest)[0] == cur);
            assert(good_piece(cur));
        } else {
            assert(pieces_from(cur, rest) == Seq::<Seq<char>>::empty());
        }
    } else if rest[0] == '\n' {
        lemma_pieces_from_good(seq![], rest.drop_first());
        assert forall|j: int| 0 <= j < cur.push('\n').len() - 1 implies cur.push('\n')[j] != '\n' by {
            assert(cur.push('\n')[j] == cur[j]);
        }
        let tail = pieces_from(seq![], rest.drop_first());
        let all = seq![cur.push('\n')] + tail;
        assert(pieces_from(cur, rest) == all);
        assert forall|i: int| 0 <= i < all.len() implies good_piece(#[trigger] all[i]) by {
            if i > 0 {
                assert(all[i] == tail[i - 1]);
            } else {
                assert(all[0] == cur.push('\n'));
            }
        }
    } else {
        assert forall|j: int| 0 <= j < cur.push(rest[0]).len() implies cur.push(rest[0])[j] != '\n' by {
            if j < cur.len() {
                assert(cur.push(rest[0])[j] == cur[j]);
            }
        }
        lemma_pieces_from_good(cur.push(rest[0]), rest.drop_first());
        assert(pieces_from(cur, rest) == pieces_from(cur.push(rest[0]), rest.drop_first()));
    }
}

/// Adding a non-empty single-line piece keeps the scrollback's shape.
pub proof fn lemma_add_piece_wf(sb: Seq<Seq<char>>, c: Seq<char>)
    requires
        scrollback_wf(sb),
        good_piece(c),
    ensures
        scrollback_wf(add_piece(sb, c)),
{
    let r = add_piece(sb, c);
    if sb.len() > 0 && !ends_nl(sb.last()) {
        let last = sb.last();
        assert(sb[sb.len() - 1] == last);
        let joined = last + c;
        assert forall|j: int| 0 <= j < joined.len() - 1 implies joined[j] != '\n' by {
            if j < last.len() {
                if j == last.len() - 1 {
                    assert(!ends_nl(last));
                } else {
                    assert(one_line(last));
                }
            } else {
                assert(joined[j] == c[j - last.len()]);
            }
        }
        assert forall|i: int| 0 <= i < r.len() implies (#[trigger] r[i]).len() > 0 && one_line(
            r[i],
        ) by {
            if i == r.len() - 1 {
                assert(r[i] == joined);
            } else {
                assert(r[i] == sb[i]);
            }
        }
        assert forall|i: int| 0 <= i < r.len() - 1 implies ends_nl(#[trigger] r[i]) by {
            assert(r[i] == sb[i]);
        }
    } else {
        assert forall|i: int| 0 <= i < r.len() implies (#[trigger] r[i]).len() > 0 && one_line(
            r[i],
        ) by {
            if i < sb.len() {
                assert(r[i] == sb[i]);
            }
        }
        assert forall|i: int| 0 <= i < r.len() - 1 implies ends_nl(#[trigger] r[i]) by {
            assert(r[i] == sb[i]);
            if i == sb.len() - 1 {
                assert(sb.last() == sb[i]);
            }
        }
    }
}

proof fn lemma_add_pieces_wf(sb: Seq<Seq<char>>, cs: Seq<Seq<char>>)
    requires
        scrollback_wf(sb),
        forall|i: int| 0 <= i < cs.len() ==> good_piece(#[trigger] cs[i]),
    ensures
        scrollback_wf(add_pieces(sb, cs)),
    decreases cs.len(),
{
    if cs.len() > 0 {
        assert forall|i: int| 0 <= i < cs.drop_last().len() implies good_piece(
            #[trigger] cs.drop_last()[i],
        ) by {
            assert(cs.drop_last()[i] == cs[i]);
        }
        lemma_add_pieces_wf(sb, cs.drop_last());
        assert(cs.last() == cs[cs.len() - 1]);
        lemma_add_piece_wf(add_pieces(sb, cs.drop_last()), cs.last());
    }
}

/// Received text is kept exactly: the scrollback's characters after a
/// receive are the old characters followed by the received text, with only
/// whole entries dropped from the front once more than `MAX_SCROLLBACK`
/// entries would be held; the buffer never holds more than that.
pub proof fn law_received_text_is_kept(sb: Seq<Seq<char>>, text: Seq<char>)
    ensures
        append_text(sb, text).len() <= MAX_SCROLLBACK,
        exists|dropped: Seq<char>|
            dropped + concat_all(append_text(sb, text)) == concat_all(sb) + text,
        add_pieces(sb, pieces(text)).len() <= MAX_SCROLLBACK ==> concat_all(append_text(sb, text))
            == concat_all(sb) + text,
{
    let full = add_pieces(sb, pieces(text));
    lemma_concat_add_pieces(sb, pieces(text));
    lemma_concat_pieces_from(seq![], text);
    assert(Seq::<char>::empty() + text =~= text);
    if full.len() > MAX_SCROLLBACK {
        let d = full.len() - MAX_SCROLLBACK;
        lemma_concat_all_add(full.take(d), full.skip(d));
        assert(full.take(d) + full.skip(d) =~= full);
        assert(concat_all(full.take(d)) + concat_all(append_text(sb, text)) == concat_all(sb)
            + text);
    } else {
        assert(Seq::<char>::empty() + concat_all(append_text(sb, text)) =~= concat_all(sb)
            + text);
    }
}

/// Receiving text keeps the scrollback's shape: non-empty single-line
/// entries, each one but the last terminated by a line feed.
pub proof fn law_received_text_keeps_shape(sb: Seq<Seq<char>>, text: Seq<char>)
    requires
        scrollback_wf(sb),
    ensures
        scrollback_wf(append_text(sb, text)),
{
    lemma_pieces_from_good(seq![], text);
    lemma_add_pieces_wf(sb, pieces(text));
    let full = add_pieces(sb, pieces(text));
    if full.len() > MAX_SCROLLBACK {
        let d = full.len() - MAX_SCROLLBACK;
        let k = full.skip(d);
        assert forall|i: int| 0 <= i < k.len() implies (#[trigger] k[i]).len() > 0 && one_line(
            k[i],
        ) by {
            assert(k[i] == full[i + d]);
        }
        assert forall|i: int| 0 <= i < k.len() - 1 implies ends_nl(#[trigger] k[i]) by {
            assert(k[i] == full[i + d]);
        }
    }
}

/// The display lines of one scrollback entry.
pub fn lines_of_exec(e: &[char]) -> (r: Vec<Vec<char>>)
    ensures
        cviews(r@) == lines_of(e@),
{
    let ghost mut emitted: Seq<Seq<char>> = seq![];
    let mut r: Vec<Vec<char>> = Vec::new();
    let mut cur: Vec<char> = Vec::new();
    let mut i: usize = 0;
    while i < e.len()
        invariant
            i <= e.len(),
            pieces(e@) == emitted + pieces_from(cur@, e@.skip(i as int)),
            cviews(r@) == emitted.map_values(|c: Seq<char>| strip_nl(c)),
            forall|j: int| 0 <= j < cur@.len() ==> cur@[j] != '\n',
        decreases e.len() - i,
    {
        let c = e[i];
        let ghost rest = e@.skip(i as int);
        proof {
            lemma_pieces_step(cur@, rest);
            assert(rest.drop_first() == e@.skip(i + 1));
        }
        if c == '\n' {
            proof {
                let e2 = emitted.push(cur@.push('\n'));
                assert(emitted + (seq![cur@.push('\n')] + pieces_from(seq![], rest.drop_first()))
                    =~= e2 + pieces_from(seq![], rest.drop_first()));
                assert(cur@.push('\n').drop_last() =~= cur@);
                assert(e2.map_values(|c: Seq<char>| strip_nl(c)) =~= emitted.map_values(
                    |c: Seq<char>| strip_nl(c),
                ).push(cur@));
                emitted = e2;
            }
            r.push(cur);
            cur = Vec::new();
        } else {
            cur.push(c);
        }
        i += 1;
    }
    proof {
        assert(e@.skip(e.len() as int) =~= Seq::<char>::empty());
    }
    if cur.len() > 0 {
        proof {
            let e2 = emitted.push(cur@);
            assert(emitted + seq![cur@] =~= e2);
            assert(!ends_nl(cur@)) by {
                assert(cur@[cur@.len() - 1] != '\n');
            }
            assert(e2.map_values(|c: Seq<char>| strip_nl(c)) =~= emitted.map_values(
                |c: Seq<char>| strip_nl(c),
            ).push(cur@));
            emitted = e2;
        }
        r.push(cur);
    } else {
        assert(emitted + Seq::<Seq<char>>::empty() =~= emitted);
    }
    r
}

/// The display lines of a whole scrollback.
pub fn all_lines_exec(sb: &Vec<String>) -> (r: Vec<Vec<char>>)
    ensures
        cviews(r@) == all_lines(views(sb@)),
{
    let mut r: Vec<Vec<char>> = Vec::new();
    let mut i: usize = 0;
    while i < sb.len()
        invariant
            i <= sb.len(),
            cviews(r@) == all_lines(views(sb@).take(i as int)),
        decreases sb.len() - i,
    {
        let cs = chars_of(sb[i].as_str());
        let mut ls = lines_of_exec(cs.as_slice());
        let ghost before = r@;
        let ghost added = ls@;
        r.append(&mut ls);
        proof {
            let t = views(sb@).take(i + 1);
            assert(t.drop_last() == views(sb@).take(i as int));
            assert(t.last() == sb@[i as int]@);
            assert(cviews(before + added) =~= cviews(before) + cviews(added));
        }
        i += 1;
    }
    assert(views(sb@).take(sb.len() as int) == views(sb@));
    r
}

/// Some line holds more than whitespace.
pub open spec fn has_content(ls: Seq<Seq<char>>) -> bool {
    exists|k: int| 0 <= k < ls.len() && !is_blank(#[trigger] ls[k])
}

/// `k` is the first line that holds more than whitespace.
pub open spec fn first_content_at(ls: Seq<Seq<char>>, k: int) -> bool {
    0 <= k < ls.len() && !is_blank(ls[k]) && forall|j: int| 0 <= j < k ==> is_blank(#[trigger] ls[j])
}

/// `k` is the last line that holds more than whitespace.
pub open spec fn last_content_at(ls: Seq<Seq<char>>, k: int) -> bool {
    0 <= k < ls.len() && !is_blank(ls[k]) && forall|j: int| k < j < ls.len() ==> is_blank(
        #[trigger] ls[j],
    )
}

/// The lines from the first to the last that hold more than whitespace.
pub open spec fn content_lines(ls: Seq<Seq<char>>) -> Seq<Seq<char>> {
    if has_content(ls) {
        let s = choose|k: int| first_content_at(ls, k);
        let e = choose|k: int| last_content_at(ls, k);
        ls.subrange(s, e + 1)
    } else {
        seq![]
    }
}

/// The text copied from the scrollback: its lines without leading and
/// trailing blank lines, joined by line feeds.
pub open spec fn clipboard_text(sb: Seq<Seq<char>>) -> Seq<char> {
    join_nl(content_lines(all_lines(sb)))
}

/// The text to copy to the clipboard from a scrollback.
pub fn scrollback_text(sb: &Vec<String>) -> (s: String)
    ensures
        s@ == clipboard_text(views(sb@)),
{
    let lines = all_lines_exec(sb);
    let ghost ls = cviews(lines@);
    let n = lines.len();
    let mut first: usize = 0;
    while first < n && is_blank_chars(lines[first].as_slice())
        invariant
            n == lines.len(),
            first <= n,
            ls == cviews(lines@),
            forall|j: int| 0 <= j < first ==> is_blank(#[trigger] ls[j]),
        decreases n - first,
    {
        first += 1;
    }
    if first == n {
        assert(!has_content(ls)) by {
            if has_content(ls) {
                let k = choose|k: int| 0 <= k < ls.len() && !is_blank(#[trigger] ls[k]);
                assert(is_blank(ls[k]));
            }
        }
        let empty: Vec<Vec<char>> = Vec::new();
        let s = join_lines(empty.as_slice());
        assert(cviews(empty@) =~= Seq::<Seq<char>>::empty());
        return s;
    }
    let mut last: usize = n - 1;
    while last > first && is_blank_chars(lines[last].as_slice())
        invariant
            n == lines.len(),
            first <= last < n,
            ls == cviews(lines@),
            !is_blank(ls[first as int]),
            forall|j: int| last < j < n ==> is_blank(#[trigger] ls[j]),
        decreases last,
    {
        last -= 1;
    }
    proof {
        assert(first_content_at(ls, first as int));
        assert(last_content_at(ls, last as int));
        assert(has_content(ls));
        let s0 = choose|k: int| first_content_at(ls, k);
        let e0 = choose|k: int| last_content_at(ls, k);
        if s0 < first {
            assert(is_blank(ls[s0]));
        }
        if first < s0 {
            assert(is_blank(ls[first as int]));
        }
        if e0 > last {
            assert(is_blank(ls[e0]));
        }
        if last > e0 {
            assert(is_blank(ls[last as int]));
        }
    }
    let part = vstd::slice::slice_subrange(lines.as_slice(), first, last + 1);
    assert(cviews(part@) =~= ls.subrange(first as int, last + 1));
    join_lines(part)
}

/// Name for what `strip_ansi_escapes::strip` returns for a byte sequence.
pub uninterp spec fn ansi_stripped(b: Seq<u8>) -> Seq<u8>;

/// Calls `strip_ansi_escapes::strip`, which removes terminal escape
/// sequences (and control bytes other than line feeds); the result is the
/// name `ansi_stripped` of the input.
#[verifier::external_body]
pub(crate) fn strip_ansi(bytes: &[u8]) -> (r: Vec<u8>)
    ensures
        r@ == ansi_stripped(bytes@),
{
    strip_ansi_escapes::strip(bytes)
}

/// The text that received bytes add to the scrollback: escape sequences
/// removed, decoded as UTF-8 (invalid sequences replaced), line endings
/// turned into line feeds.
pub open spec fn received_text(bytes: Seq<u8>, nl: NewlineEncoding) -> Seq<char> {
    normalize_text(crate::text::lossy_utf8(ansi_stripped(bytes)), nl)
}

/// The text that received bytes add to the scrollback.
pub fn received_text_exec(bytes: &[u8], nl: NewlineEncoding) -> (r: Vec<char>)
    ensures
        r@ == received_text(bytes@, nl),
{
    let stripped = strip_ansi(bytes);
    let text = crate::text::utf8_lossy(stripped.as_slice());
    let cs = chars_of(text.as_str());
    normalize_text_exec(cs.as_slice(), nl)
}

proof fn lemma_single_piece(cur: Seq<char>, rest: Seq<char>)
    requires
        forall|j: int| 0 <= j < cur.len() ==> cur[j] != '\n',
        forall|j: int| 0 <= j < rest.len() - 1 ==> rest[j] != '\n',
        cur.len() + rest.len() > 0,
    ensures
        pieces_from(cur, rest).len() == 1,
    decreases rest.len(),
{
    if rest.len() == 0 {
        assert(pieces_from(cur, rest) == seq![cur]);
    } else if rest[0] == '\n' {
        assert(rest.len() == 1);
        assert(rest.drop_first() =~= Seq::<char>::empty());
        assert(pieces_from(seq![], rest.drop_first()) == Seq::<Seq<char>>::empty());
        assert(pieces_from(cur, rest) =~= seq![cur.push('\n')]);
    } else {
        assert forall|j: int| 0 <= j < cur.push(rest[0]).len() implies cur.push(rest[0])[j] != '\n' by {
            if j < cur.len() {
                assert(cur.push(rest[0])[j] == cur[j]);
            }
        }
        assert forall|j: int| 0 <= j < rest.drop_first().len() - 1 implies rest.drop_first()[j] != '\n' by {
            assert(rest.drop_first()[j] == rest[j + 1]);
        }
        lemma_single_piece(cur.push(rest[0]), rest.drop_first());
    }
}

/// In a well-formed scrollback every entry is exactly one display line.
pub proof fn lemma_wf_line_count(sb: Seq<Seq<char>>)
    requires
        scrollback_wf(sb),
    ensures
        all_lines(sb).len() == sb.len(),
    decreases sb.len(),
{
    if sb.len() > 0 {
        assert(scrollback_wf(sb.drop_last())) by {
            assert forall|i: int| 0 <= i < sb.drop_last().len() implies (#[trigger] sb.drop_last()[i]).len() > 0
                && one_line(sb.drop_last()[i]) by {
                assert(sb.drop_last()[i] == sb[i]);
            }
            assert forall|i: int| 0 <= i < sb.drop_last().len() - 1 implies ends_nl(#[trigger] sb.drop_last()[i]) by {
                assert(sb.drop_last()[i] == sb[i]);
            }
        }
        lemma_wf_line_count(sb.drop_last());
        let e = sb.last();
        assert(sb[sb.len() - 1] == e);
        lemma_single_piece(seq![], e);
    }
}

} // verus!
