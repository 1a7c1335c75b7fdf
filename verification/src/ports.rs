//! Serial port descriptions: the order in which ports are listed and the
//! messages shown when opening one fails.
use vstd::prelude::*;
use crate::text::{ascii_lowered, is_ascii_text, chars_of, contains, contains_exec, lowercase, starts_with, starts_with_exec, to_lowercase, string_of};

verus! {

broadcast use vstd::seq_lib::group_seq_properties;

/// USB details of a port.
#[derive(Clone, Debug)]
pub struct UsbPortInfo {
    pub vid: u16,
    pub pid: u16,
    pub serial_number: Option<String>,
    pub manufacturer: Option<String>,
    pub product: Option<String>,
}

/// The kind of device behind a port.
#[derive(Clone, Debug)]
pub enum PortType {
    UsbPort(UsbPortInfo),
    BluetoothPort,
    PciPort,
    Unknown,
}

/// A port found on the system.
#[derive(Clone, Debug)]
pub struct PortInfo {
    pub port_name: String,
    pub port_type: PortType,
}

/// An ASCII decimal digit.
pub open spec fn is_digit(c: char) -> bool {
    '0' <= c && c <= '9'
}

/// Where the run of decimal digits that ends `s` begins.
pub open spec fn digits_start(s: Seq<char>) -> int
    decreases s.len(),
{
    if s.len() > 0 && is_digit(s.last()) {
        digits_start(s.drop_last())
    } else {
        s.len() as int
    }
}

/// The value of a sequence of decimal digits.
pub open spec fn digits_value(s: Seq<char>) -> nat
    decreases s.len(),
{
    if s.len() == 0 {
        0
    } else {
        digits_value(s.drop_last()) * 10 + ((s.last() as u32 - 48) as nat)
    }
}

/// The number a digit run stands for when it parses as a `u32`, else 0.
pub open spec fn digits_number(s: Seq<char>) -> u32 {
    if s.len() > 0 && digits_value(s) <= u32::MAX {
        digits_value(s) as u32
    } else {
        0
    }
}

/// A port name can be split into its text and its trailing number at a
/// character boundary: the character before the trailing digits, if any,
/// is ASCII.
pub open spec fn splittable_name(s: Seq<char>) -> bool {
    digits_start(s) == 0 || (s[digits_start(s) - 1] as u32) < 128
}

/// A port name split into its text and its trailing number, e.g.
/// `/dev/ttyUSB10` into `/dev/ttyUSB` and 10.
pub open spec fn name_key(s: Seq<char>) -> (Seq<char>, u32) {
    (s.take(digits_start(s)), digits_number(s.skip(digits_start(s))))
}

proof fn lemma_digits_start(s: Seq<char>)
    ensures
        0 <= digits_start(s) <= s.len(),
        forall|j: int| digits_start(s) <= j < s.len() ==> is_digit(#[trigger] s[j]),
        digits_start(s) > 0 ==> !is_digit(s[digits_start(s) - 1]),
    decreases s.len(),
{
    if s.len() > 0 && is_digit(s.last()) {
        lemma_digits_start(s.drop_last());
        assert forall|j: int| digits_start(s) <= j < s.len() implies is_digit(#[trigger] s[j]) by {
            if j < s.len() - 1 {
                assert(s.drop_last()[j] == s[j]);
            }
        }
    }
}

proof fn lemma_digits_value_grows(s: Seq<char>, c: char)
    requires
        is_digit(c),
    ensures
        digits_value(s.push(c)) == digits_value(s) * 10 + ((c as u32 - 48) as nat),
        digits_value(s.push(c)) >= digits_value(s),
{
    assert(s.push(c).drop_last() == s);
}

/// A port name split into its text and its trailing number; the number is
/// 0 when there are no trailing digits or they do not fit a `u32`.
pub fn port_sort_key(name: &str) -> (r: (String, u32))
    requires
        splittable_name(name@),
    ensures
        r.0@ == name_key(name@).0,
        r.1 == name_key(name@).1,
{
    let cs = chars_of(name);
    let mut k: usize = cs.len();
    while k > 0 && '0' <= cs[k - 1] && cs[k - 1] <= '9'
        invariant
            k <= cs.len(),
            cs@ == name@,
            digits_start(cs@) == digits_start(cs@.take(k as int)),
        decreases k,
    {
        assert(cs@.take(k as int).drop_last() == cs@.take(k - 1));
        k -= 1;
    }
    assert(cs@.take(cs@.len() as int) == cs@);
    assert(digits_start(cs@.take(k as int)) == k);
    let prefix = string_of(vstd::slice::slice_subrange(cs.as_slice(), 0, k));
    let ghost ds = cs@.skip(k as int);
    proof {
        lemma_digits_start(cs@);
    }
    let mut value: u32 = 0;
    let mut fits = true;
    let mut i: usize = k;
    while i < cs.len()
        invariant
            k <= i <= cs.len(),
            ds == cs@.skip(k as int),
            digits_start(cs@) == k,
            forall|j: int| k <= j < cs@.len() ==> is_digit(#[trigger] cs@[j]),
            fits ==> value == digits_value(cs@.subrange(k as int, i as int)),
            !fits ==> digits_value(cs@.subrange(k as int, i as int)) > u32::MAX,
        decreases cs.len() - i,
    {
        let c = cs[i];
        let d: u32 = (c as u32) - 48;
        proof {
            assert(is_digit(cs@[i as int]));
            assert(cs@.subrange(k as int, i + 1) == cs@.subrange(k as int, i as int).push(c));
            lemma_digits_value_grows(cs@.subrange(k as int, i as int), c);
        }
        if fits {
            match value.checked_mul(10) {
                Some(v10) => match v10.checked_add(d) {
                    Some(v) => {
                        value = v;
                    },
                    None => {
                        fits = false;
                    },
                },
                None => {
                    fits = false;
                },
            }
        }
        i += 1;
    }
    assert(cs@.subrange(k as int, cs@.len() as int) == ds);
    let number = if fits && k < cs.len() {
        value
    } else {
        0
    };
    (prefix, number)
}

/// The part of a path after its last `/` (the whole of it if there is none).
pub open spec fn base_name(s: Seq<char>) -> Seq<char>
    decreases s.len(),
{
    if s.len() == 0 || s.last() == '/' {
        seq![]
    } else {
        base_name(s.drop_last()).push(s.last())
    }
}

/// Names of the devices most likely to be serial adapters.
pub open spec fn is_common_port(s: Seq<char>) -> bool {
    let b = base_name(s);
    starts_with(b, "ttyUSB"@) || starts_with(b, "ttyACM"@) || starts_with(b, "ttyAMA"@)
        || starts_with(b, "COM"@) || starts_with(b, "cu."@)
}

fn base_name_exec(s: &[char]) -> (r: Vec<char>)
    ensures
        r@ == base_name(s@),
{
    let mut k: usize = s.len();
    while k > 0 && s[k - 1] != '/'
        invariant
            k <= s.len(),
            base_name(s@) == base_name(s@.take(k as int)) + s@.skip(k as int),
        decreases k,
    {
        let ghost t = s@.take(k as int);
        assert(t.drop_last() == s@.take(k - 1));
        assert(s@.skip(k - 1) == seq![t.last()] + s@.skip(k as int));
        assert(base_name(t) == base_name(t.drop_last()).push(t.last()));
        assert(base_name(t.drop_last()).push(t.last()) + s@.skip(k as int) == base_name(
            t.drop_last(),
        ) + (seq![t.last()] + s@.skip(k as int)));
        k -= 1;
    }
    assert(s@.take(s@.len() as int) == s@);
    assert(s@.skip(s@.len() as int) == Seq::<char>::empty());
    assert(base_name(s@.take(k as int)) == Seq::<char>::empty());
    let r = vstd::slice::slice_to_vec(vstd::slice::slice_subrange(s, k, s.len()));
    assert(r@ == s@.skip(k as int));
    r
}

/// 0 for names of likely serial adapters, 1 for everything else.
pub fn port_priority(name: &str) -> (p: u8)
    ensures
        p == (if is_common_port(name@) {
            0u8
        } else {
            1u8
        }),
{
    let cs = chars_of(name);
    let base = base_name_exec(cs.as_slice());
    let b = base.as_slice();
    if starts_with_exec(b, chars_of("ttyUSB").as_slice()) || starts_with_exec(
        b,
        chars_of("ttyACM").as_slice(),
    ) || starts_with_exec(b, chars_of("ttyAMA").as_slice()) || starts_with_exec(
        b,
        chars_of("COM").as_slice(),
    ) || starts_with_exec(b, chars_of("cu.").as_slice()) {
        0
    } else {
        1
    }
}

/// `a` comes before `b` in the order of code points (the order of `str`).
pub open spec fn text_lt(a: Seq<char>, b: Seq<char>) -> bool
    decreases a.len(),
{
    if a.len() == 0 {
        b.len() > 0
    } else if b.len() == 0 {
        false
    } else if a[0] != b[0] {
        a[0] < b[0]
    } else {
        text_lt(a.drop_first(), b.drop_first())
    }
}

/// The key by which ports are listed: likely adapters first, then by name
/// text, then by trailing number.
pub open spec fn port_key(name: Seq<char>) -> (u8, Seq<char>, u32) {
    (
        if is_common_port(name) {
            0u8
        } else {
            1u8
        },
        name_key(name).0,
        name_key(name).1,
    )
}

/// Key `a` does not come after key `b`.
pub open spec fn key_le(a: (u8, Seq<char>, u32), b: (u8, Seq<char>, u32)) -> bool {
    a.0 < b.0 || (a.0 == b.0 && (text_lt(a.1, b.1) || (a.1 == b.1 && a.2 <= b.2)))
}

/// Port `a` may be listed before port `b`.
pub open spec fn port_le(a: PortInfo, b: PortInfo) -> bool {
    key_le(port_key(a.port_name@), port_key(b.port_name@))
}

/// Ports listed in key order.
pub open spec fn ports_sorted(s: Seq<PortInfo>) -> bool {
    forall|i: int, j: int| 0 <= i < j < s.len() ==> port_le(#[trigger] s[i], #[trigger] s[j])
}

proof fn lemma_text_lt_trans(a: Seq<char>, b: Seq<char>, c: Seq<char>)
    requires
        text_lt(a, b),
        text_lt(b, c),
    ensures
        text_lt(a, c),
    decreases a.len(),
{
    if a.len() > 0 && b.len() > 0 && c.len() > 0 && a[0] == b[0] && b[0] == c[0] {
        lemma_text_lt_trans(a.drop_first(), b.drop_first(), c.drop_first());
    }
}

proof fn lemma_text_lt_total(a: Seq<char>, b: Seq<char>)
    ensures
        a == b || text_lt(a, b) || text_lt(b, a),
        !(text_lt(a, b) && text_lt(b, a)),
    decreases a.len(),
{
    if a.len() > 0 && b.len() > 0 {
        if a[0] == b[0] {
            lemma_text_lt_total(a.drop_first(), b.drop_first());
            if a.drop_first() == b.drop_first() {
                assert(a =~= b);
            }
        }
    } else if a.len() == 0 && b.len() == 0 {
        assert(a =~= b);
    }
}

proof fn lemma_key_le_trans(a: (u8, Seq<char>, u32), b: (u8, Seq<char>, u32), c: (u8, Seq<char>, u32))
    requires
        key_le(a, b),
        key_le(b, c),
    ensures
        key_le(a, c),
{
    if a.0 == b.0 && b.0 == c.0 && text_lt(a.1, b.1) && text_lt(b.1, c.1) {
        lemma_text_lt_trans(a.1, b.1, c.1);
    }
}

proof fn lemma_key_le_total(a: (u8, Seq<char>, u32), b: (u8, Seq<char>, u32))
    ensures
        key_le(a, b) || key_le(b, a),
{
    lemma_text_lt_total(a.1, b.1);
}

/// Whether the first text sorts before the second.
fn text_lt_exec(a: &[char], b: &[char]) -> (r: bool)
    ensures
        r == text_lt(a@, b@),
{
    let mut i: usize = 0;
    while i < a.len() && i < b.len() && a[i] == b[i]
        invariant
            i <= a.len(),
            i <= b.len(),
            text_lt(a@, b@) == text_lt(a@.skip(i as int), b@.skip(i as int)),
        decreases a.len() - i,
    {
        assert(a@.skip(i as int).drop_first() == a@.skip(i + 1));
        assert(b@.skip(i as int).drop_first() == b@.skip(i + 1));
        i += 1;
    }
    if i == a.len() {
        i < b.len()
    } else if i == b.len() {
        false
    } else {
        a[i] < b[i]
    }
}

/// The key of a port, with its name text as characters.
struct KeyExec {
    priority: u8,
    text: Vec<char>,
    number: u32,
}

impl KeyExec {
    spec fn view_key(&self) -> (u8, Seq<char>, u32) {
        (self.priority, self.text@, self.number)
    }
}

fn key_of(p: &PortInfo) -> (k: KeyExec)
    requires
        splittable_name(p.port_name@),
    ensures
        k.view_key() == port_key(p.port_name@),
{
    let (text, number) = port_sort_key(p.port_name.as_str());
    KeyExec { priority: port_priority(p.port_name.as_str()), text: chars_of(text.as_str()), number }
}

fn key_le_exec(a: &KeyExec, b: &KeyExec) -> (r: bool)
    ensures
        r == key_le(a.view_key(), b.view_key()),
{
    if a.priority != b.priority {
        return a.priority < b.priority;
    }
    if text_lt_exec(a.text.as_slice(), b.text.as_slice()) {
        return true;
    }
    if !crate::text::chars_eq(a.text.as_slice(), b.text.as_slice()) {
        return false;
    }
    a.number <= b.number
}

/// Every port name can be split at a character boundary.
pub open spec fn all_splittable(ports: Seq<PortInfo>) -> bool {
    forall|i: int| 0 <= i < ports.len() ==> splittable_name(#[trigger] ports[i].port_name@)
}

/// The ports whose listing key is `k`, in their order.
pub open spec fn with_key(s: Seq<PortInfo>, k: (u8, Seq<char>, u32)) -> Seq<PortInfo> {
    s.filter(|p: PortInfo| port_key(p.port_name@) == k)
}

proof fn lemma_filter_none(s: Seq<PortInfo>, k: (u8, Seq<char>, u32))
    requires
        forall|i: int| 0 <= i < s.len() ==> port_key((#[trigger] s[i]).port_name@) != k,
    ensures
        with_key(s, k) == Seq::<PortInfo>::empty(),
    decreases s.len(),
{
    reveal(Seq::filter);
    if s.len() > 0 {
        assert(forall|i: int| 0 <= i < s.drop_last().len() ==> s.drop_last()[i] == s[i]);
        lemma_filter_none(s.drop_last(), k);
        assert(port_key(s[s.len() - 1].port_name@) != k);
    }
}

proof fn lemma_with_key_insert(s: Seq<PortInfo>, pos: int, p: PortInfo, k: (u8, Seq<char>, u32))
    requires
        0 <= pos <= s.len(),
        forall|j: int| pos <= j < s.len() ==> port_key((#[trigger] s[j]).port_name@) != port_key(p.port_name@),
    ensures
        with_key(s.insert(pos, p), k) == (if port_key(p.port_name@) == k {
            with_key(s, k).push(p)
        } else {
            with_key(s, k)
        }),
{
    broadcast use Seq::filter_distributes_over_add;

    let pred = |q: PortInfo| port_key(q.port_name@) == k;
    let a = s.take(pos);
    let b = s.skip(pos);
    assert(s =~= a + b);
    assert(s.insert(pos, p) =~= a + seq![p] + b);
    reveal_with_fuel(Seq::filter, 2);
    assert(seq![p].drop_last() =~= Seq::<PortInfo>::empty());
    if port_key(p.port_name@) == k {
        assert forall|i: int| 0 <= i < b.len() implies port_key((#[trigger] b[i]).port_name@) != k by {
            assert(b[i] == s[pos + i]);
        }
        lemma_filter_none(b, k);
        assert(with_key(s, k) =~= a.filter(pred));
        assert(with_key(s.insert(pos, p), k) =~= a.filter(pred).push(p));
    } else {
        assert(with_key(s.insert(pos, p), k) =~= a.filter(pred) + b.filter(pred));
    }
}

/// The ports in listing order: likely serial adapters first, then by name
/// text, then by the number that ends the name.  No port is added or lost,
/// and ports with the same key keep their order.
pub fn sorted_ports(ports: Vec<PortInfo>) -> (r: Vec<PortInfo>)
    requires
        all_splittable(ports@),
    ensures
        r@.to_multiset() == ports@.to_multiset(),
        ports_sorted(r@),
        forall|k: (u8, Seq<char>, u32)| #[trigger] with_key(r@, k) == with_key(ports@, k),
{
    broadcast use vstd::seq_lib::group_to_multiset_ensures;

    let ghost orig = ports@;
    let total = ports.len();
    let mut input = ports;
    let mut out: Vec<PortInfo> = Vec::new();
    let mut keys: Vec<KeyExec> = Vec::new();
    let mut done: usize = 0;
    while input.len() > 0
        invariant
            done + input@.len() == orig.len(),
            total == orig.len(),
            input@ == orig.skip(done as int),
            all_splittable(orig),
            out@.to_multiset() == orig.take(done as int).to_multiset(),
            ports_sorted(out@),
            forall|k: (u8, Seq<char>, u32)| #[trigger] with_key(out@, k) == with_key(orig.take(done as int), k),
            keys@.len() == out@.len(),
            forall|i: int| 0 <= i < out@.len() ==> (#[trigger] keys@[i]).view_key() == port_key(out@[i].port_name@),
        decreases input@.len(),
    {
        let p = input.remove(0);
        proof {
            assert(p == orig[done as int]);
            assert(splittable_name(orig[done as int].port_name@));
        }
        let k = key_of(&p);
        let mut pos: usize = 0;
        while pos < keys.len() && key_le_exec(&keys[pos], &k)
            invariant
                pos <= keys.len(),
                keys@.len() == out@.len(),
                forall|i: int| 0 <= i < out@.len() ==> (#[trigger] keys@[i]).view_key() == port_key(out@[i].port_name@),
                forall|i: int| 0 <= i < pos ==> port_le(#[trigger] out@[i], p),
                k.view_key() == port_key(p.port_name@),
            decreases keys.len() - pos,
        {
            pos += 1;
        }
        let ghost before = out@;
        let ghost kbefore = keys@;
        proof {
            if pos < out@.len() {
                assert(!key_le(keys@[pos as int].view_key(), k.view_key()));
                lemma_key_le_total(port_key(out@[pos as int].port_name@), port_key(p.port_name@));
                assert(port_le(p, out@[pos as int]));
            }
            assert forall|j: int| pos <= j < before.len() implies port_key((#[trigger] before[j]).port_name@) != port_key(p.port_name@) by {
                assert(!key_le(port_key(before[pos as int].port_name@), port_key(p.port_name@)));
                if j > pos {
                    assert(port_le(before[pos as int], before[j]));
                }
            }
            assert forall|j: int| pos <= j < before.len() implies port_le(p, #[trigger] before[j]) by {
                assert(port_le(p, before[pos as int]));
                if j > pos {
                    assert(port_le(before[pos as int], before[j]));
                    lemma_key_le_trans(
                        port_key(p.port_name@),
                        port_key(before[pos as int].port_name@),
                        port_key(before[j].port_name@),
                    );
                }
            }
        }
        out.insert(pos, p);
        keys.insert(pos, k);
        proof {
            let o = out@;
            assert forall|i: int, j: int| 0 <= i < j < o.len() implies port_le(#[trigger] o[i], #[trigger] o[j]) by {
                if j < pos {
                    assert(o[i] == before[i] && o[j] == before[j]);
                } else if j == pos {
                    assert(o[i] == before[i]);
                } else if i < pos {
                    assert(o[i] == before[i] && o[j] == before[j - 1]);
                    assert(port_le(before[i], p));
                    assert(port_le(p, before[j - 1]));
                    lemma_key_le_trans(
                        port_key(before[i].port_name@),
                        port_key(p.port_name@),
                        port_key(before[j - 1].port_name@),
                    );
                } else if i == pos {
                    assert(o[j] == before[j - 1]);
                } else {
                    assert(o[i] == before[i - 1] && o[j] == before[j - 1]);
                }
            }
            assert forall|i: int| 0 <= i < out@.len() implies (#[trigger] keys@[i]).view_key() == port_key(out@[i].port_name@) by {
                if i < pos {
                } else if i == pos {
                } else {
                    assert(keys@[i] == kbefore[i - 1]);
                    assert(out@[i] == before[i - 1]);
                }
            }
            assert(orig.take(done + 1) == orig.take(done as int).push(p));
            assert forall|kv: (u8, Seq<char>, u32)| #[trigger] with_key(out@, kv) == with_key(orig.take(done + 1), kv) by {
                lemma_with_key_insert(before, pos as int, p, kv);
                assert(out@ == before.insert(pos as int, p));
                reveal_with_fuel(Seq::filter, 1);
                assert(orig.take(done + 1).drop_last() == orig.take(done as int));
            }
        }
        done += 1;
    }
    assert(orig.take(orig.len() as int) == orig);
    out
}

/// The message shown when a port cannot be opened or fails: common causes
/// are explained in plain words (matched case-insensitively), anything
/// else is shown as reported.
pub open spec fn friendly_error(raw: Seq<char>) -> Seq<char> {
    friendly_named(lowercase(raw), raw)
}

/// The message for an error text `raw` whose lower-case form is `l`.
pub open spec fn friendly_named(l: Seq<char>, raw: Seq<char>) -> Seq<char> {
    if contains(l, "permission denied"@) || contains(l, "access denied"@) {
        "Permission denied - try running with sudo or check port permissions"@
    } else if contains(l, "no such file"@) || contains(l, "not found"@) {
        "Port not found - device may have been disconnected"@
    } else if contains(l, "broken pipe"@) || contains(l, "device disconnected"@) {
        "Device disconnected unexpectedly"@
    } else if contains(l, "resource busy"@) || contains(l, "access is denied"@) {
        "Port is busy - already in use by another application"@
    } else if contains(l, "timed out"@) {
        "Connection timed out"@
    } else {
        raw
    }
}

fn has(l: &[char], needle: &str) -> (r: bool)
    ensures
        r == contains(l@, needle@),
{
    contains_exec(l, chars_of(needle).as_slice())
}

/// The message shown for an error reported by the serial port layer.
pub fn friendly_serial_error(raw: &str) -> (msg: String)
    ensures
        msg@ == friendly_error(raw@),
        is_ascii_text(raw@) ==> msg@ == friendly_named(ascii_lowered(raw@), raw@),
{
    let lower = to_lowercase(raw);
    friendly_message(lower.as_str(), raw)
}

/// The message for an error text `raw` whose lower-case form is `lower`
/// (see `friendly_named`).
pub fn friendly_message(lower: &str, raw: &str) -> (msg: String)
    ensures
        msg@ == friendly_named(lower@, raw@),
{
    let l = chars_of(lower);
    let l = l.as_slice();
    if has(l, "permission denied") || has(l, "access denied") {
        String::from_str("Permission denied - try running with sudo or check port permissions")
    } else if has(l, "no such file") || has(l, "not found") {
        String::from_str("Port not found - device may have been disconnected")
    } else if has(l, "broken pipe") || has(l, "device disconnected") {
        String::from_str("Device disconnected unexpectedly")
    } else if has(l, "resource busy") || has(l, "access is denied") {
        String::from_str("Port is busy - already in use by another application")
    } else if has(l, "timed out") {
        String::from_str("Connection timed out")
    } else {
        String::from_str(raw)
    }
}

/// A lowercase hexadecimal digit for `d < 16`.
pub open spec fn hex_digit(d: nat) -> char {
    if d < 10 {
        (48 + d) as char
    } else {
        (87 + d) as char
    }
}

/// A 16-bit identifier as `0x` and four lowercase hexadecimal digits.
pub open spec fn hex_id(v: u16) -> Seq<char> {
    seq![
        '0',
        'x',
        hex_digit((v as nat / 4096) % 16),
        hex_digit((v as nat / 256) % 16),
        hex_digit((v as nat / 16) % 16),
        hex_digit(v as nat % 16),
    ]
}

/// An optional text, or `-` when absent.
pub open spec fn or_dash(v: Option<String>) -> Seq<char> {
    match v {
        Some(t) => t@,
        None => "-"@,
    }
}

/// The description of a port shown beside the list, one line per entry:
/// a label shown in bold and the plain text after it. USB ports list the
/// vendor and product identifiers, manufacturer, product and serial
/// number; other kinds give their kind.
pub open spec fn port_info_lines(t: PortType) -> Seq<(Seq<char>, Seq<char>)> {
    match t {
        PortType::UsbPort(info) => seq![
            ("Type:         "@, "USB"@),
            ("VID:          "@, hex_id(info.vid)),
            ("PID:          "@, hex_id(info.pid)),
            ("Manufacturer: "@, or_dash(info.manufacturer)),
            ("Product:      "@, or_dash(info.product)),
            ("Serial:       "@, or_dash(info.serial_number)),
        ],
        PortType::BluetoothPort => seq![(Seq::<char>::empty(), "Type: Bluetooth"@)],
        PortType::PciPort => seq![(Seq::<char>::empty(), "Type: PCI"@)],
        PortType::Unknown => seq![(Seq::<char>::empty(), "Type: Unknown"@)],
    }
}

fn hex_char(d: u16) -> (c: char)
    requires
        d < 16,
    ensures
        c == hex_digit(d as nat),
{
    if d < 10 {
        let b: u8 = 48u8 + d as u8;
        b as char
    } else {
        let b: u8 = 87u8 + d as u8;
        b as char
    }
}

fn hex_string(v: u16) -> (s: String)
    ensures
        s@ == hex_id(v),
{
    let mut s = String::new();
    crate::text::push_char(&mut s, '0');
    crate::text::push_char(&mut s, 'x');
    crate::text::push_char(&mut s, hex_char((v / 4096) % 16));
    crate::text::push_char(&mut s, hex_char((v / 256) % 16));
    crate::text::push_char(&mut s, hex_char((v / 16) % 16));
    crate::text::push_char(&mut s, hex_char(v % 16));
    assert(s@ =~= hex_id(v));
    s
}

fn dash_or(v: &Option<String>) -> (s: String)
    ensures
        s@ == or_dash(*v),
{
    match v {
        Some(t) => t.clone(),
        None => String::from_str("-"),
    }
}

fn info_line(label: &str, text: String) -> (l: (String, String))
    ensures
        l.0@ == label@,
        l.1@ == text@,
{
    (String::from_str(label), text)
}

/// The description of a port (see `port_info_lines`).
pub fn port_info_text(port_type: &PortType) -> (lines: Vec<(String, String)>)
    ensures
        lines@.len() == port_info_lines(*port_type).len(),
        forall|i: int|
            0 <= i < lines@.len() ==> (#[trigger] lines@[i]).0@ == port_info_lines(*port_type)[i].0
                && lines@[i].1@ == port_info_lines(*port_type)[i].1,
{
    let mut lines: Vec<(String, String)> = Vec::new();
    match port_type {
        PortType::UsbPort(info) => {
            lines.push(info_line("Type:         ", String::from_str("USB")));
            lines.push(info_line("VID:          ", hex_string(info.vid)));
            lines.push(info_line("PID:          ", hex_string(info.pid)));
            lines.push(info_line("Manufacturer: ", dash_or(&info.manufacturer)));
            lines.push(info_line("Product:      ", dash_or(&info.product)));
            lines.push(info_line("Serial:       ", dash_or(&info.serial_number)));
        },
        PortType::BluetoothPort => {
            lines.push((String::new(), String::from_str("Type: Bluetooth")));
        },
        PortType::PciPort => {
            lines.push((String::new(), String::from_str("Type: PCI")));
        },
        PortType::Unknown => {
            lines.push((String::new(), String::from_str("Type: Unknown")));
        },
    }
    lines
}

} // verus!
