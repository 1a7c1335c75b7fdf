//! Errors, the port list and the connection: opening, pausing, changing
//! speed, reconnecting and reacting to what the port thread reports.
use vstd::prelude::*;
use crate::ports::{all_splittable, friendly_error, friendly_serial_error, sorted_ports, with_key, PortInfo};
use crate::scrollback::{law_received_text_is_kept, MAX_SCROLLBACK, append_text, parser_bytes, received_text, normalize_newlines_for_parser, received_text_exec, append_to_scrollback, law_received_text_keeps_shape};
use crate::serial::{baud_rates, find_baud, baud_rate_at, PortConfig, SerialEvent, FALLBACK_BAUD_INDEX};
use crate::state::{fresh_session, starting_state, distinct_messages, effects, fresh_view, App, Effect, EffectView, ErrorEntry, OpenPurpose, OpenRequest, Screen, TerminalMode, TerminalView, ERROR_DISPLAY_MS, RECONNECT_DELAY_MS};
use crate::text::views;

verus! {

/// An error entry as a value: message, count, last time reported.
pub open spec fn error_view(e: ErrorEntry) -> (Seq<char>, u32, u64) {
    (e.message@, e.count, e.shown_at)
}

/// The error entries as values.
pub open spec fn errors_view(s: Seq<ErrorEntry>) -> Seq<(Seq<char>, u32, u64)> {
    s.map_values(|e: ErrorEntry| error_view(e))
}

/// One more occurrence, stopping at the largest count.
pub open spec fn count_up(c: u32) -> u32 {
    if c < u32::MAX {
        (c + 1) as u32
    } else {
        c
    }
}

/// The errors after `msg` is reported at `now`: an entry with the same
/// message is counted up and refreshed, otherwise a new entry is added.
pub open spec fn report(errs: Seq<(Seq<char>, u32, u64)>, msg: Seq<char>, now: u64) -> Seq<
    (Seq<char>, u32, u64),
> {
    if exists|i: int| 0 <= i < errs.len() && (#[trigger] errs[i]).0 == msg {
        let i = choose|i: int| 0 <= i < errs.len() && (#[trigger] errs[i]).0 == msg;
        errs.update(i, (msg, count_up(errs[i].1), now))
    } else {
        errs.push((msg, 1u32, now))
    }
}

/// An error reported again while it is still listed adds no entry: the
/// entry with that message is counted up and its time refreshed.
pub proof fn law_repeated_error_is_counted(errs: Seq<(Seq<char>, u32, u64)>, msg: Seq<char>, t1: u64, t2: u64)
    ensures
        ({
            let r1 = report(errs, msg, t1);
            exists|i: int|
                0 <= i < r1.len() && (#[trigger] r1[i]).0 == msg && report(r1, msg, t2) == r1.update(
                    i,
                    (msg, count_up(r1[i].1), t2),
                )
        }),
{
    let r1 = report(errs, msg, t1);
    if exists|i: int| 0 <= i < errs.len() && (#[trigger] errs[i]).0 == msg {
        let i = choose|i: int| 0 <= i < errs.len() && (#[trigger] errs[i]).0 == msg;
        assert(r1[i].0 == msg);
    } else {
        assert(r1[errs.len() as int].0 == msg);
    }
}

/// The errors still shown at `now`: those reported less than
/// `ERROR_DISPLAY_MS` ago.
pub open spec fn still_shown(errs: Seq<(Seq<char>, u32, u64)>, now: u64) -> Seq<(Seq<char>, u32, u64)> {
    errs.filter(|e: (Seq<char>, u32, u64)| (if now >= e.2 { now - e.2 } else { 0 }) < ERROR_DISPLAY_MS)
}

/// Everything but the errors is unchanged.
pub open spec fn only_errors_changed(a: App, b: App) -> bool {
    b == App { errors: b.errors, ..a }
}

impl App {
    /// Reports an error: a message already shown is counted again and its
    /// display time restarts; a new message is added at the end.
    pub fn push_error(&mut self, msg: String, now: u64)
        requires
            distinct_messages(old(self).errors@),
        ensures
            errors_view(final(self).errors@) == report(errors_view(old(self).errors@), msg@, now),
            distinct_messages(final(self).errors@),
            only_errors_changed(*old(self), *final(self)),
    {
        let ghost ev = errors_view(self.errors@);
        let mut i: usize = 0;
        while i < self.errors.len()
            invariant
                i <= self.errors@.len(),
                self.errors@ == old(self).errors@,
                *self == *old(self),
                ev == errors_view(self.errors@),
                distinct_messages(old(self).errors@),
                forall|j: int| 0 <= j < i ==> (#[trigger] ev[j]).0 != msg@,
            decreases self.errors@.len() - i,
        {
            if self.errors[i].message == msg {
                let count = if self.errors[i].count < u32::MAX {
                    self.errors[i].count + 1
                } else {
                    self.errors[i].count
                };
                let entry = ErrorEntry { message: msg, count, shown_at: now };
                proof {
                    assert(ev[i as int].0 == entry.message@);
                    assert forall|j: int| 0 <= j < ev.len() && (#[trigger] ev[j]).0 == entry.message@ implies j == i by {
                        if j < i {
                            assert(old(self).errors@[j].message@ != old(self).errors@[i as int].message@);
                        } else if j > i {
                            assert(old(self).errors@[i as int].message@ != old(self).errors@[j].message@);
                        }
                    }
                }
                self.errors.set(i, entry);
                proof {
                    assert(errors_view(self.errors@) =~= report(ev, msg@, now));
                    assert forall|k: int| 0 <= k < self.errors@.len() implies (#[trigger] self.errors@[k]).message@ == old(self).errors@[k].message@ by {}
                    assert forall|a: int, b: int| 0 <= a < b < self.errors@.len() implies (#[trigger] self.errors@[a]).message@ != (#[trigger] self.errors@[b]).message@ by {
                        assert(old(self).errors@[a].message@ != old(self).errors@[b].message@);
                    }
                }
                return;
            }
            i += 1;
        }
        let ghost m = msg@;
        self.errors.push(ErrorEntry { message: msg, count: 1, shown_at: now });
        proof {
            assert(!(exists|i: int| 0 <= i < ev.len() && (#[trigger] ev[i]).0 == m));
            assert(errors_view(self.errors@) =~= report(ev, m, now));
            assert forall|a: int, b: int| 0 <= a < b < self.errors@.len() implies (#[trigger] self.errors@[a]).message@ != (#[trigger] self.errors@[b]).message@ by {
                if b == self.errors@.len() - 1 {
                    assert(ev[a].0 != m);
                } else {
                    assert(old(self).errors@[a].message@ != old(self).errors@[b].message@);
                }
            }
        }
    }

    /// Drops the errors that have been shown for `ERROR_DISPLAY_MS` or longer.
    pub fn tick_errors(&mut self, now: u64)
        requires
            distinct_messages(old(self).errors@),
        ensures
            errors_view(final(self).errors@) == still_shown(errors_view(old(self).errors@), now),
            distinct_messages(final(self).errors@),
            only_errors_changed(*old(self), *final(self)),
    {
        let ghost ev = errors_view(self.errors@);
        let mut kept: Vec<ErrorEntry> = Vec::new();
        let mut i: usize = 0;
        while i < self.errors.len()
            invariant
                i <= self.errors@.len(),
                *self == *old(self),
                ev == errors_view(self.errors@),
                errors_view(kept@) == still_shown(ev.take(i as int), now),
                forall|a: int| 0 <= a < kept@.len() ==> exists|b: int| 0 <= b < i && (#[trigger] kept@[a]).message@ == (#[trigger] self.errors@[b]).message@,
                distinct_messages(kept@),
                distinct_messages(self.errors@),
            decreases self.errors@.len() - i,
        {
            let shown_at = self.errors[i].shown_at;
            let elapsed = if now >= shown_at {
                now - shown_at
            } else {
                0
            };
            proof {
                let t = ev.take(i + 1);
                assert(t.drop_last() == ev.take(i as int));
                reveal_with_fuel(Seq::filter, 1);
            }
            if elapsed < ERROR_DISPLAY_MS {
                let e = ErrorEntry {
                    message: self.errors[i].message.clone(),
                    count: self.errors[i].count,
                    shown_at,
                };
                proof {
                    assert forall|a: int| 0 <= a < kept@.len() implies (#[trigger] kept@[a]).message@ != e.message@ by {
                        let b = choose|b: int| 0 <= b < i && (#[trigger] kept@[a]).message@ == (#[trigger] self.errors@[b]).message@;
                        assert(self.errors@[b].message@ != self.errors@[i as int].message@);
                    }
                }
                let ghost before = kept@;
                kept.push(e);
                proof {
                    assert(kept@.drop_last() == before);
                    assert(errors_view(kept@) =~= errors_view(before).push(error_view(e)));
                }
            }
            i += 1;
        }
        assert(ev.take(self.errors@.len() as int) == ev);
        self.errors = kept;
    }
}

/// Where the selection lands after the port list is refreshed: on the
/// previously selected port if it is still listed (its first occurrence),
/// else on the first port.
pub open spec fn reselect(old_ports: Seq<PortInfo>, old_sel: usize, new_ports: Seq<PortInfo>) -> usize {
    if old_sel < old_ports.len() && exists|i: int|
        0 <= i < new_ports.len() && (#[trigger] new_ports[i]).port_name@ == old_ports[old_sel as int].port_name@ {
        (choose|i: int|
            0 <= i < new_ports.len() && (#[trigger] new_ports[i]).port_name@ == old_ports[old_sel as int].port_name@
                && forall|j: int| 0 <= j < i ==> (#[trigger] new_ports[j]).port_name@ != old_ports[old_sel as int].port_name@) as usize
    } else {
        0
    }
}

proof fn lemma_first_match(s: Seq<PortInfo>, name: Seq<char>, i: int)
    requires
        0 <= i < s.len(),
        s[i].port_name@ == name,
    ensures
        exists|k: int|
            0 <= k <= i && (#[trigger] s[k]).port_name@ == name && forall|j: int|
                0 <= j < k ==> (#[trigger] s[j]).port_name@ != name,
    decreases i,
{
    if exists|j: int| 0 <= j < i && (#[trigger] s[j]).port_name@ == name {
        let j = choose|j: int| 0 <= j < i && (#[trigger] s[j]).port_name@ == name;
        lemma_first_match(s, name, j);
    } else {
        assert(forall|j: int| 0 <= j < i ==> (#[trigger] s[j]).port_name@ != name);
    }
}

/// Refreshing the port list keeps the selection on the same port: when the
/// previously selected port's name is still listed, the new selection is
/// the first entry with that name; otherwise it is the first entry.
pub proof fn law_refresh_keeps_selected_port(old_ports: Seq<PortInfo>, old_sel: usize, new_ports: Seq<PortInfo>)
    requires
        new_ports.len() <= usize::MAX,
    ensures
        ({
            let r = reselect(old_ports, old_sel, new_ports) as int;
            let still_listed = old_sel < old_ports.len() && exists|i: int|
                0 <= i < new_ports.len() && (#[trigger] new_ports[i]).port_name@ == old_ports[old_sel as int].port_name@;
            &&& still_listed ==> 0 <= r < new_ports.len()
            &&& still_listed ==> new_ports[r].port_name@ == old_ports[old_sel as int].port_name@
            &&& still_listed ==> forall|j: int|
                0 <= j < r ==> (#[trigger] new_ports[j]).port_name@ != old_ports[old_sel as int].port_name@
            &&& !still_listed ==> r == 0
        }),
{
    if old_sel < old_ports.len() {
        let name = old_ports[old_sel as int].port_name@;
        if exists|i: int| 0 <= i < new_ports.len() && (#[trigger] new_ports[i]).port_name@ == name {
            let i = choose|i: int| 0 <= i < new_ports.len() && (#[trigger] new_ports[i]).port_name@ == name;
            lemma_first_match(new_ports, name, i);
            let k = choose|k: int|
                0 <= k <= i && (#[trigger] new_ports[k]).port_name@ == name && forall|j: int|
                    0 <= j < k ==> (#[trigger] new_ports[j]).port_name@ != name;
            assert(0 <= k < new_ports.len() && new_ports[k].port_name@ == name && forall|j: int|
                0 <= j < k ==> (#[trigger] new_ports[j]).port_name@ != name);
        }
    }
}

/// The baud rate position the speed keys start from: the current rate's
/// position among the standard rates, or the fallback position.
pub open spec fn baud_position(baud: u32) -> int {
    if exists|i: int| 0 <= i < 8 && baud_rates()[i] == baud {
        choose|i: int| 0 <= i < 8 && baud_rates()[i] == baud
    } else {
        FALLBACK_BAUD_INDEX as int
    }
}

/// The standard rate `delta` steps from `baud`, staying within the list.
pub open spec fn stepped_baud(baud: u32, delta: int) -> u32 {
    let p = baud_position(baud) + delta;
    baud_rates()[if p < 0 {
        0
    } else if p > 7 {
        7
    } else {
        p
    }]
}

/// The state and effects after settings are applied: a connected port is
/// closed and, after a short wait, reopened with the current settings.
pub open spec fn apply_result(a: App) -> (App, Seq<EffectView>) {
    if !a.connected || a.active_port@.len() == 0 {
        (a, seq![])
    } else {
        (
            App { connected: false, ..a },
            seq![EffectView::Close, EffectView::Wait(50), reopen(a, a.port_config, OpenPurpose::Apply)],
        )
    }
}

/// The port selection moved by `delta`, wrapping around the list.
pub open spec fn moved_selection(a: App, delta: int) -> App {
    if a.ports@.len() == 0 {
        a
    } else {
        App { selected: ((a.selected + delta) % (a.ports@.len() as int)) as usize, ..a }
    }
}

/// The request to open the selected port, if one is selected.
pub open spec fn open_selected_effects(a: App) -> Seq<EffectView> {
    if a.selected < a.ports@.len() {
        seq![EffectView::Open(a.ports@[a.selected as int].port_name@, a.port_config, OpenPurpose::Select)]
    } else {
        seq![]
    }
}

/// Disconnecting: the port thread is told to disconnect (if connected),
/// pausing ends and the port selection screen returns.
pub open spec fn disconnect_result(a: App) -> (App, Seq<EffectView>) {
    (
        App { connected: false, paused: false, screen: Screen::PortSelect, ..a },
        if a.connected {
            seq![EffectView::Disconnect]
        } else {
            seq![]
        },
    )
}

/// Pausing frees the port (disconnecting if connected, with no reconnect
/// pending); resuming reopens it.
pub open spec fn pause_result(a: App) -> (App, Seq<EffectView>) {
    if a.paused {
        (App { paused: false, ..a }, seq![reopen(a, a.port_config, OpenPurpose::Resume)])
    } else {
        (
            App { connected: false, reconnect_at: None, paused: true, ..a },
            if a.connected {
                seq![EffectView::Disconnect]
            } else {
                seq![]
            },
        )
    }
}

/// The terminal screen waits for a device that went away: not connected,
/// kept open, not paused.
pub open spec fn waiting_for_device(a: App) -> bool {
    !a.connected && a.hold && !a.paused && a.screen == Screen::Terminal
}

/// The reconnect part of the periodic step at `now`: while waiting for the
/// device, a reconnect is scheduled `RECONNECT_DELAY_MS` ahead, or, once its
/// time has come, the port is reopened with the same settings.
pub open spec fn reconnect_step(a: App, now: u64) -> (App, Seq<EffectView>) {
    if !waiting_for_device(a) {
        (a, seq![])
    } else {
        match a.reconnect_at {
            None => (App { reconnect_at: Some((now + RECONNECT_DELAY_MS) as u64), ..a }, seq![]),
            Some(at) => if now < at {
                (a, seq![])
            } else {
                (App { reconnect_at: None, ..a }, seq![reopen(a, a.port_config, OpenPurpose::Reconnect)])
            },
        }
    }
}

/// The connection lost at `now` with the terminal kept open: a reconnect
/// is scheduled `RECONNECT_DELAY_MS` ahead.
pub open spec fn lost_kept_open(a: App, now: u64) -> App {
    App { connected: false, reconnect_at: Some((now + RECONNECT_DELAY_MS) as u64), ..a }
}

/// A device that goes away while the terminal is kept open is reopened,
/// with the same port and settings, by the first periodic step at least
/// `RECONNECT_DELAY_MS` after it went away; steps before then do nothing.
pub proof fn law_lost_device_is_reopened(a: App, now: u64, later: u64)
    requires
        a.hold,
        a.screen == Screen::Terminal,
        !a.paused,
        now + RECONNECT_DELAY_MS <= u64::MAX,
    ensures
        later >= now + RECONNECT_DELAY_MS ==> reconnect_step(lost_kept_open(a, now), later).1 == seq![
            reopen(a, a.port_config, OpenPurpose::Reconnect),
        ],
        later < now + RECONNECT_DELAY_MS ==> reconnect_step(lost_kept_open(a, now), later) == (
            lost_kept_open(a, now),
            Seq::<EffectView>::empty(),
        ),
{
}

/// Pausing and then resuming asks to reopen the same port with the same
/// settings, and leaves the terminal unpaused.
pub proof fn law_pause_then_resume(a: App)
    requires
        !a.paused,
    ensures
        !pause_result(pause_result(a).0).0.paused,
        pause_result(pause_result(a).0).1 == seq![reopen(a, a.port_config, OpenPurpose::Resume)],
        pause_result(a).0.paused && !pause_result(a).0.connected,
{
}

/// Bytes are sent only while connected and not paused.
pub open spec fn send_effects(a: App, bytes: Seq<u8>) -> Seq<EffectView> {
    if !a.paused && a.connected {
        seq![EffectView::Write(bytes)]
    } else {
        seq![]
    }
}

/// Stepping the baud rate: at either end of the list nothing happens;
/// otherwise the port is closed and, after a wait, reopened at the new rate.
pub open spec fn baud_result(a: App, delta: int) -> (App, Seq<EffectView>) {
    let nb = stepped_baud(a.port_config.baud, delta);
    if nb == a.port_config.baud {
        (a, seq![])
    } else {
        (
            App { connected: false, ..a },
            seq![
                EffectView::Close,
                EffectView::Wait(100),
                reopen(a, PortConfig { baud: nb, ..a.port_config }, OpenPurpose::ChangeBaud),
            ],
        )
    }
}

/// The request to reopen the active port.
pub open spec fn reopen(a: App, config: PortConfig, purpose: OpenPurpose) -> EffectView {
    EffectView::Open(a.active_port@, config, purpose)
}

/// Euclidean remainder of a negative number, as the selection arithmetic
/// computes it without negative operands.
pub proof fn lemma_euclid_mod(s: int, n: int)
    requires
        n > 0,
    ensures
        s < 0 ==> n - 1 - ((-s - 1) % n) == s % n,
        0 <= s % n < n,
{
    if s < 0 {
        let q = (-s - 1) / n;
        let m = (-s - 1) % n;
        assert(-s - 1 == q * n + m && 0 <= m < n) by (nonlinear_arith)
            requires
                n > 0,
                q == (-s - 1) / n,
                m == (-s - 1) % n,
        {
        }
        assert(s == (-q - 1) * n + (n - 1 - m)) by (nonlinear_arith)
            requires
                -s - 1 == q * n + m,
        {
        }
        vstd::arithmetic::div_mod::lemma_fundamental_div_mod_converse(s, n, -q - 1, n - 1 - m);
    }
}

/// The standard baud rates are all different.
pub proof fn lemma_baud_rates_distinct()
    ensures
        forall|i: int, j: int| 0 <= i < 8 && 0 <= j < 8 && i != j ==> baud_rates()[i] != baud_rates()[j],
{
}

/// The first port with the given name.
fn find_port(ports: &Vec<PortInfo>, name: &String) -> (r: Option<usize>)
    ensures
        match r {
            Some(i) => i < ports@.len() && ports@[i as int].port_name@ == name@ && forall|j: int|
                0 <= j < i ==> (#[trigger] ports@[j]).port_name@ != name@,
            None => forall|j: int| 0 <= j < ports@.len() ==> (#[trigger] ports@[j]).port_name@ != name@,
        },
{
    let mut i: usize = 0;
    while i < ports.len()
        invariant
            i <= ports@.len(),
            forall|j: int| 0 <= j < i ==> (#[trigger] ports@[j]).port_name@ != name@,
        decreases ports@.len() - i,
    {
        if ports[i].port_name == *name {
            return Some(i);
        }
        i += 1;
    }
    None
}

impl App {
    /// A fresh application listing the given ports in order.
    pub fn new(hold: bool, keyboard_enhanced: bool, ports: Vec<PortInfo>) -> (a: Self)
        requires
            all_splittable(ports@),
        ensures
            a.ports@.to_multiset() == ports@.to_multiset(),
            crate::ports::ports_sorted(a.ports@),
            forall|k: (u8, Seq<char>, u32)| #[trigger] with_key(a.ports@, k) == with_key(ports@, k),
            a.hold == hold,
            a.keyboard_enhanced == keyboard_enhanced,
            starting_state(a),
            a.inv(),
    {
        let mut a = App::default();
        a.ports = sorted_ports(ports);
        a.hold = hold;
        a.keyboard_enhanced = keyboard_enhanced;
        a
    }

    /// Moves the port selection by `delta`, wrapping around the list.
    pub fn move_selection(&mut self, delta: i32)
        requires
            old(self).ports@.len() <= i32::MAX,
            old(self).selected <= i32::MAX,
            old(self).selected + delta <= i32::MAX,
        ensures
            *final(self) == moved_selection(*old(self), delta as int),

    {
        if self.ports.len() == 0 {
            return;
        }
        let len = self.ports.len() as i64;
        let sum: i64 = self.selected as i64 + delta as i64;
        let r: i64 = if sum >= 0 {
            sum % len
        } else {
            len - 1 - ((-sum - 1) % len)
        };
        proof {
            lemma_euclid_mod(sum as int, len as int);
        }
        self.selected = r as usize;
    }

    /// Replaces the port list with `ports` in listing order, keeping the
    /// selection on the same port where possible.
    pub fn refresh_ports(&mut self, ports: Vec<PortInfo>)
        requires
            all_splittable(ports@),
        ensures
            final(self).ports@.to_multiset() == ports@.to_multiset(),
            crate::ports::ports_sorted(final(self).ports@),
            forall|k: (u8, Seq<char>, u32)| #[trigger] with_key(final(self).ports@, k) == with_key(ports@, k),
            final(self).selected == reselect(old(self).ports@, old(self).selected, final(self).ports@),
            final(self).ports@.len() == 0 ==> final(self).selected == 0,
            final(self).ports@.len() > 0 ==> final(self).selected < final(self).ports@.len(),
            *final(self) == (App { ports: final(self).ports, selected: final(self).selected, ..*old(self) }),
    {
        let previous: Option<String> = if self.selected < self.ports.len() {
            Some(self.ports[self.selected].port_name.clone())
        } else {
            None
        };
        assert(previous matches Some(n) ==> n@ == old(self).ports@[old(self).selected as int].port_name@);
        let sorted = sorted_ports(ports);
        let sel: usize = match previous {
            Some(name) => match find_port(&sorted, &name) {
                Some(i) => i,
                None => 0,
            },
            None => 0,
        };
        proof {
            let np = sorted@;
            if old(self).selected < old(self).ports@.len() {
                let nm = old(self).ports@[old(self).selected as int].port_name@;
                if exists|i: int| 0 <= i < np.len() && (#[trigger] np[i]).port_name@ == nm {
                    let k = choose|i: int|
                        0 <= i < np.len() && (#[trigger] np[i]).port_name@ == nm && forall|j: int|
                            0 <= j < i ==> (#[trigger] np[j]).port_name@ != nm;
                    assert(sel < np.len() && np[sel as int].port_name@ == nm);
                    if k < sel {
                        assert(np[k].port_name@ != nm);
                    }
                    if sel < k {
                        assert(np[sel as int].port_name@ != nm);
                    }
                }
            }
        }
        self.ports = sorted;
        self.selected = sel;
    }

    /// Asks to open the selected port.
    pub fn open_selected(&mut self) -> (r: Vec<Effect>)
        ensures
            *final(self) == *old(self),
            effects(r@) == open_selected_effects(*old(self)),

    {
        let mut r: Vec<Effect> = Vec::new();
        if self.selected < self.ports.len() {
            r.push(
                Effect::Open(
                    OpenRequest {
                        port: self.ports[self.selected].port_name.clone(),
                        config: self.port_config,
                        purpose: OpenPurpose::Select,
                    },
                ),
            );
        }
        assert(effects(r@) =~= (if old(self).selected < old(self).ports@.len() {
            seq![
                EffectView::Open(
                    old(self).ports@[old(self).selected as int].port_name@,
                    old(self).port_config,
                    OpenPurpose::Select,
                ),
            ]
        } else {
            seq![]
        }));
        r
    }

    /// Disconnects and returns to the port selection screen.
    pub fn disconnect(&mut self) -> (r: Vec<Effect>)
        ensures
            (*final(self), effects(r@)) == disconnect_result(*old(self)),

    {
        let mut r: Vec<Effect> = Vec::new();
        if self.connected {
            r.push(Effect::Disconnect);
        }
        self.connected = false;
        self.paused = false;
        self.screen = Screen::PortSelect;
        assert(effects(r@) =~= (if old(self).connected {
            seq![EffectView::Disconnect]
        } else {
            seq![]
        }));
        r
    }

    /// Pauses the connection (freeing the port) or resumes it.
    pub fn toggle_pause(&mut self) -> (r: Vec<Effect>)
        ensures
            (*final(self), effects(r@)) == pause_result(*old(self)),

    {
        let mut r: Vec<Effect> = Vec::new();
        if self.paused {
            self.paused = false;
            r.push(
                Effect::Open(
                    OpenRequest {
                        port: self.active_port.clone(),
                        config: self.port_config,
                        purpose: OpenPurpose::Resume,
                    },
                ),
            );
            assert(effects(r@) =~= seq![reopen(*old(self), old(self).port_config, OpenPurpose::Resume)]);
        } else {
            if self.connected {
                r.push(Effect::Disconnect);
            }
            self.connected = false;
            self.reconnect_at = None;
            self.paused = true;
            assert(effects(r@) =~= (if old(self).connected {
                seq![EffectView::Disconnect]
            } else {
                seq![]
            }));
        }
        r
    }

    /// Sends bytes to the device, unless paused or not connected.
    pub fn send_bytes(&self, bytes: Vec<u8>) -> (r: Vec<Effect>)
        ensures
            effects(r@) == send_effects(*self, bytes@),

    {
        let mut r: Vec<Effect> = Vec::new();
        let ghost b = bytes@;
        if !self.paused && self.connected {
            r.push(Effect::Write(bytes));
        }
        assert(effects(r@) =~= (if !self.paused && self.connected {
            seq![EffectView::Write(b)]
        } else {
            seq![]
        }));
        r
    }

    /// Reopens the connection so changed settings take effect; nothing
    /// happens when no port is connected.
    pub fn apply_port_config(&mut self) -> (r: Vec<Effect>)
        ensures
            (*final(self), effects(r@)) == apply_result(*old(self)),
    {
        let mut r: Vec<Effect> = Vec::new();
        if !self.connected || self.active_port.as_str().is_empty() {
            assert(effects(r@) =~= Seq::<EffectView>::empty());
            return r;
        }
        self.connected = false;
        r.push(Effect::Close);
        r.push(Effect::Wait(50));
        r.push(
            Effect::Open(
                OpenRequest { port: self.active_port.clone(), config: self.port_config, purpose: OpenPurpose::Apply },
            ),
        );
        assert(effects(r@) =~= seq![
            EffectView::Close,
            EffectView::Wait(50),
            reopen(*old(self), old(self).port_config, OpenPurpose::Apply),
        ]);
        r
    }

    /// Steps the baud rate through the standard rates, reopening the port at
    /// the new rate; nothing happens at either end of the list.
    pub fn change_baud(&mut self, delta: i32) -> (r: Vec<Effect>)
        requires
            baud_position(old(self).port_config.baud) + delta <= i32::MAX,
        ensures
            (*final(self), effects(r@)) == baud_result(*old(self), delta as int),

    {
        let current: usize = match find_baud(self.port_config.baud) {
            Some(i) => i,
            None => FALLBACK_BAUD_INDEX,
        };
        proof {
            lemma_baud_rates_distinct();
            assert(current as int == baud_position(old(self).port_config.baud));
        }
        let p: i64 = current as i64 + delta as i64;
        let next: usize = if p < 0 {
            0
        } else if p > 7 {
            7
        } else {
            p as usize
        };
        let new_baud = baud_rate_at(next);
        let mut r: Vec<Effect> = Vec::new();
        if new_baud == self.port_config.baud {
            assert(effects(r@) =~= Seq::<EffectView>::empty());
            return r;
        }
        self.connected = false;
        let mut config = self.port_config;
        config.baud = new_baud;
        r.push(Effect::Close);
        r.push(Effect::Wait(100));
        r.push(
            Effect::Open(OpenRequest { port: self.active_port.clone(), config, purpose: OpenPurpose::ChangeBaud }),
        );
        assert(effects(r@) =~= seq![
            EffectView::Close,
            EffectView::Wait(100),
            reopen(
                *old(self),
                PortConfig { baud: stepped_baud(old(self).port_config.baud, delta as int), ..old(self).port_config },
                OpenPurpose::ChangeBaud,
            ),
        ]);
        r
    }

    /// Takes in the outcome of opening a port (`Err` holds the reported
    /// error text).  A successful open connects; what else happens depends
    /// on why the port was opened:
    /// - `Select`: errors are cleared, the terminal starts empty, the port
    ///   becomes the active one, the terminal screen is shown in insert mode;
    /// - `Resume`, `Reconnect`: errors are cleared;
    /// - `ChangeBaud`: the new settings are kept.
    /// A failed open reports the error in plain words, except that a failed
    /// reconnect is retried after `RECONNECT_DELAY_MS`, and a failed change of
    /// speed also returns to the port selection screen.
    pub fn finish_open(&mut self, req: OpenRequest, result: Result<(), String>, now: u64) -> (r: Vec<Effect>)
        requires
            distinct_messages(old(self).errors@),
            now + RECONNECT_DELAY_MS <= u64::MAX,
        ensures
            distinct_messages(final(self).errors@),
            result is Ok && req.purpose == OpenPurpose::Select ==> {
                &&& final(self).errors@.len() == 0
                &&& fresh_view(final(self).view)
                &&& final(self).active_port@ == req.port@
                &&& *final(self) == (App {
                    errors: final(self).errors,
                    view: final(self).view,
                    active_port: final(self).active_port,
                    connected: true,
                    screen: Screen::Terminal,
                    terminal_mode: TerminalMode::Insert,
                    ..*old(self)
                })
                &&& effects(r@) == seq![EffectView::ResetEmulator]
            },
            result is Ok && req.purpose == OpenPurpose::Apply ==> *final(self) == (App {
                connected: true,
                ..*old(self)
            }) && effects(r@) == Seq::<EffectView>::empty(),
            result is Ok && (req.purpose == OpenPurpose::Resume || req.purpose == OpenPurpose::Reconnect)
                ==> final(self).errors@.len() == 0 && *final(self) == (App {
                errors: final(self).errors,
                connected: true,
                ..*old(self)
            }) && effects(r@) == Seq::<EffectView>::empty(),
            result is Ok && req.purpose == OpenPurpose::ChangeBaud ==> *final(self) == (App {
                port_config: req.config,
                connected: true,
                ..*old(self)
            }) && effects(r@) == Seq::<EffectView>::empty(),
            result matches Err(e) ==> effects(r@) == Seq::<EffectView>::empty(),
            result matches Err(e) ==> (req.purpose == OpenPurpose::Reconnect ==> *final(self) == (App {
                reconnect_at: Some((now + RECONNECT_DELAY_MS) as u64),
                ..*old(self)
            })),
            result matches Err(e) ==> (req.purpose != OpenPurpose::Reconnect ==> errors_view(
                final(self).errors@,
            ) == report(errors_view(old(self).errors@), friendly_error(e@), now)),
            result matches Err(e) ==> (req.purpose == OpenPurpose::ChangeBaud ==> *final(self) == (App {
                errors: final(self).errors,
                screen: Screen::PortSelect,
                ..*old(self)
            })),
            result matches Err(e) ==> (req.purpose != OpenPurpose::Reconnect && req.purpose
                != OpenPurpose::ChangeBaud ==> only_errors_changed(*old(self), *final(self))),
    {
        let mut r: Vec<Effect> = Vec::new();
        match result {
            Ok(()) => {
                match req.purpose {
                    OpenPurpose::Select => {
                        self.errors = Vec::new();
                        self.view = TerminalView::new();
                        self.active_port = req.port;
                        self.connected = true;
                        self.screen = Screen::Terminal;
                        self.terminal_mode = TerminalMode::Insert;
                        r.push(Effect::ResetEmulator);
                    },
                    OpenPurpose::Apply => {
                        self.connected = true;
                    },
                    OpenPurpose::Resume | OpenPurpose::Reconnect => {
                        self.connected = true;
                        self.errors = Vec::new();
                    },
                    OpenPurpose::ChangeBaud => {
                        self.port_config = req.config;
                        self.connected = true;
                    },
                }
            },
            Err(e) => {
                match req.purpose {
                    OpenPurpose::Reconnect => {
                        self.reconnect_at = Some(now + RECONNECT_DELAY_MS);
                    },
                    OpenPurpose::ChangeBaud => {
                        self.push_error(friendly_serial_error(e.as_str()), now);
                        self.screen = Screen::PortSelect;
                    },
                    _ => {
                        self.push_error(friendly_serial_error(e.as_str()), now);
                    },
                }
            },
        }
        proof {
            if r@.len() == 1 {
                assert(effects(r@) =~= seq![EffectView::ResetEmulator]);
            } else {
                assert(effects(r@) =~= Seq::<EffectView>::empty());
            }
        }
        r
    }

    /// The periodic step: expired errors disappear, and while the terminal
    /// screen waits for a device that went away (and is not paused) a
    /// reconnect is scheduled `RECONNECT_DELAY_MS` ahead, or attempted once
    /// its time has come.
    pub fn poll_serial(&mut self, now: u64) -> (r: Vec<Effect>)
        requires
            distinct_messages(old(self).errors@),
            now + RECONNECT_DELAY_MS <= u64::MAX,
        ensures
            distinct_messages(final(self).errors@),
            errors_view(final(self).errors@) == still_shown(errors_view(old(self).errors@), now),
            (App { errors: old(self).errors, ..*final(self) }, effects(r@)) == reconnect_step(*old(self), now),
    {
        self.tick_errors(now);
        let mut r: Vec<Effect> = Vec::new();
        if !self.connected && self.hold && !self.paused && self.screen == Screen::Terminal {
            match self.reconnect_at {
                Some(at) => {
                    if now >= at {
                        self.reconnect_at = None;
                        r.push(
                            Effect::Open(
                                OpenRequest {
                                    port: self.active_port.clone(),
                                    config: self.port_config,
                                    purpose: OpenPurpose::Reconnect,
                                },
                            ),
                        );
                        assert(effects(r@) =~= seq![
                            reopen(*old(self), old(self).port_config, OpenPurpose::Reconnect),
                        ]);
                    }
                },
                None => {
                    self.reconnect_at = Some(now + RECONNECT_DELAY_MS);
                },
            }
        }
        assert(r@.len() == 0 ==> effects(r@) =~= Seq::<EffectView>::empty());
        r
    }

    /// Shows received bytes: they go to the terminal emulator (line endings
    /// widened as the incoming encoding requires) and their text to the
    /// scrollback, and a finished mouse selection is dropped.
    pub fn receive_data(&mut self, bytes: &[u8]) -> (r: Vec<Effect>)
        requires
            old(self).inv(),
        ensures
            final(self).inv(),
            effects(r@) == seq![EffectView::Feed(parser_bytes(bytes@, old(self).incoming_newline))],
            views(final(self).view.scrollback@) == append_text(
                views(old(self).view.scrollback@),
                received_text(bytes@, old(self).incoming_newline),
            ),
            old(self).selection.active ==> final(self).selection == old(self).selection,
            !old(self).selection.active ==> final(self).selection.anchor is None
                && final(self).selection.current is None && !final(self).selection.active,
            *final(self) == (App {
                view: TerminalView { scrollback: final(self).view.scrollback, ..old(self).view },
                selection: final(self).selection,
                ..*old(self)
            }),
    {
        if !self.selection.active {
            self.selection.clear();
        }
        let feed = normalize_newlines_for_parser(bytes, self.incoming_newline);
        let text = received_text_exec(bytes, self.incoming_newline);
        proof {
            law_received_text_keeps_shape(views(self.view.scrollback@), text@);
            law_received_text_is_kept(views(self.view.scrollback@), text@);
        }
        append_to_scrollback(&mut self.view.scrollback, text.as_slice());
        assert(views(self.view.scrollback@).len() == self.view.scrollback@.len());
        let mut r: Vec<Effect> = Vec::new();
        r.push(Effect::Feed(feed));
        assert(effects(r@) =~= seq![EffectView::Feed(parser_bytes(bytes@, old(self).incoming_newline))]);
        r
    }

    /// The connection is gone (with the error reported, if any): it is
    /// dropped; with the terminal kept open a reconnect is scheduled,
    /// otherwise the port selection screen returns with the error explained.
    pub fn connection_lost(&mut self, error: Option<String>, now: u64) -> (r: Vec<Effect>)
        requires
            distinct_messages(old(self).errors@),
            now + RECONNECT_DELAY_MS <= u64::MAX,
        ensures
            distinct_messages(final(self).errors@),
            effects(r@) == seq![EffectView::Close],
            old(self).hold ==> *final(self) == lost_kept_open(*old(self), now),
            !old(self).hold && error is None ==> *final(self) == (App {
                connected: false,
                screen: Screen::PortSelect,
                ..*old(self)
            }),
            !old(self).hold ==> (error matches Some(e) ==> *final(self) == (App {
                errors: final(self).errors,
                connected: false,
                screen: Screen::PortSelect,
                ..*old(self)
            }) && errors_view(final(self).errors@) == report(
                errors_view(old(self).errors@),
                friendly_error(e@),
                now,
            )),
    {
        self.connected = false;
        if self.hold {
            self.reconnect_at = Some(now + RECONNECT_DELAY_MS);
        } else {
            if let Some(e) = error {
                self.push_error(friendly_serial_error(e.as_str()), now);
            }
            self.screen = Screen::PortSelect;
        }
        let mut r: Vec<Effect> = Vec::new();
        r.push(Effect::Close);
        assert(effects(r@) =~= seq![EffectView::Close]);
        r
    }

    /// Reacts to a report from the port thread: data is shown, an error or
    /// a disconnect means the connection is lost.  The flag says whether to
    /// stop reading reports.
    pub fn on_serial_event(&mut self, event: SerialEvent, now: u64) -> (r: (Vec<Effect>, bool))
        requires
            old(self).inv(),
            now + RECONNECT_DELAY_MS <= u64::MAX,
        ensures
            final(self).inv(),
            event matches SerialEvent::Data(bytes) ==> !r.1 && effects(r.0@) == seq![
                EffectView::Feed(parser_bytes(bytes@, old(self).incoming_newline)),
            ] && views(final(self).view.scrollback@) == append_text(
                views(old(self).view.scrollback@),
                received_text(bytes@, old(self).incoming_newline),
            ),
            !(event is Data) ==> r.1 && effects(r.0@) == seq![EffectView::Close],
            !(event is Data) && old(self).hold ==> *final(self) == lost_kept_open(*old(self), now),
            event is Disconnected && !old(self).hold ==> *final(self) == (App {
                connected: false,
                screen: Screen::PortSelect,
                ..*old(self)
            }),
            event matches SerialEvent::Error(e) ==> (!old(self).hold ==> *final(self) == (App {
                errors: final(self).errors,
                connected: false,
                screen: Screen::PortSelect,
                ..*old(self)
            }) && errors_view(final(self).errors@) == report(
                errors_view(old(self).errors@),
                friendly_error(e@),
                now,
            )),
    {
        match event {
            SerialEvent::Data(bytes) => (self.receive_data(bytes.as_slice()), false),
            SerialEvent::Error(e) => (self.connection_lost(Some(e), now), true),
            SerialEvent::Disconnected => (self.connection_lost(None, now), true),
        }
    }

    /// An application that tried to open `port_name` at start-up: on
    /// success it shows the terminal; on failure it shows the port selection
    /// screen with the error explained.
    pub fn with_port(
        port_name: &str,
        config: PortConfig,
        hold: bool,
        keyboard_enhanced: bool,
        ports: Vec<PortInfo>,
        opened: Result<(), String>,
        now: u64,
    ) -> (a: Self)
        requires
            all_splittable(ports@),
        ensures
            a.inv(),
            a.ports@.to_multiset() == ports@.to_multiset(),
            crate::ports::ports_sorted(a.ports@),
            forall|k: (u8, Seq<char>, u32)| #[trigger] with_key(a.ports@, k) == with_key(ports@, k),
            a.active_port@ == port_name@,
            a.port_config == config,
            a.hold == hold,
            a.keyboard_enhanced == keyboard_enhanced,
            opened is Ok ==> a.connected && a.screen == Screen::Terminal && a.errors@.len() == 0,
            opened matches Err(e) ==> !a.connected && a.screen == Screen::PortSelect && errors_view(a.errors@)
                == seq![(friendly_error(e@), 1u32, now)],
            fresh_session(a),
    {
        let mut a = App::new(hold, keyboard_enhanced, ports);
        a.active_port = String::from_str(port_name);
        a.port_config = config;
        match opened {
            Ok(()) => {
                a.connected = true;
                a.screen = Screen::Terminal;
            },
            Err(e) => {
                a.errors.push(ErrorEntry { message: friendly_serial_error(e.as_str()), count: 1, shown_at: now });
                assert(errors_view(a.errors@) =~= seq![(friendly_error(e@), 1u32, now)]);
            },
        }
        a
    }
}

} // verus!
