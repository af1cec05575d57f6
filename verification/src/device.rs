//! Device bindings on the runner: the serial path and USB position
//! that identify one tethered device, parsed from the command-line
//! device specifications and matched against the enumerated bus.

use vstd::prelude::*;
use vstd::string::StrSliceExecFns;
use vstd::string::StringExecFns;

verus! {

/// One device as the runner controls it: the serial character-device
/// path, and the USB position (bus and port chain) that identifies it.
#[derive(Debug)]
pub struct DeviceCtl {
    pub serial: String,
    pub bus: u8,
    pub ports: Vec<u8>,
}

impl Clone for DeviceCtl {
    fn clone(&self) -> (r: Self)
        ensures
            r.serial == self.serial,
            r.bus == self.bus,
            r.ports@ == self.ports@,
    {
        let ports = self.ports.clone();
        proof {
            assert(ports@ =~= self.ports@);
        }
        DeviceCtl { serial: self.serial.clone(), bus: self.bus, ports }
    }
}

/// A decimal digit.
pub open spec fn is_digit(c: char) -> bool {
    '0' <= c && c <= '9'
}

/// The value of one decimal digit.
pub open spec fn digit_value(c: char) -> int {
    c as int - '0' as int
}

/// A nonempty run of decimal digits.
pub open spec fn all_digits(s: Seq<char>) -> bool {
    s.len() > 0 && forall|i: int| 0 <= i < s.len() ==> is_digit(#[trigger] s[i])
}

/// The decimal value of a digit run, most significant digit first.
pub open spec fn dec_value(s: Seq<char>) -> int
    decreases s.len(),
{
    if s.len() == 0 {
        0
    } else {
        dec_value(s.drop_last()) * 10 + digit_value(s.last())
    }
}

/// A digit run that denotes a bus or port number: it must fit a byte.
pub open spec fn valid_u8_group(s: Seq<char>) -> bool {
    all_digits(s) && dec_value(s) <= 255
}

/// Index of the first occurrence of `c`, or -1 when there is none.
pub open spec fn first_index_of(s: Seq<char>, c: char) -> int
    decreases s.len(),
{
    if s.len() == 0 {
        -1
    } else if s[0] == c {
        0
    } else {
        let r = first_index_of(s.drop_first(), c);
        if r < 0 {
            -1
        } else {
            r + 1
        }
    }
}

/// What `first_index_of` finds: -1 exactly when the character does not
/// occur, otherwise the least index carrying it.
pub proof fn lemma_first_index_of(s: Seq<char>, c: char)
    ensures
        first_index_of(s, c) == -1 ==> forall|k: int| 0 <= k < s.len() ==> s[k] != c,
        first_index_of(s, c) != -1 ==> {
            let r = first_index_of(s, c);
            &&& 0 <= r < s.len()
            &&& s[r] == c
            &&& forall|k: int| 0 <= k < r ==> s[k] != c
        },
    decreases s.len(),
{
    if s.len() > 0 && s[0] != c {
        lemma_first_index_of(s.drop_first(), c);
        let t = s.drop_first();
        assert forall|k: int| 1 <= k < s.len() implies s[k] == t[k - 1] by {}
    }
}

/// The port chain after the bus: digit groups joined with dots, each
/// fitting a byte; their values in order, or nothing when any group is
/// empty, holds a non-digit, or overflows. The bounds gate on the dot
/// position never fires (`lemma_first_index_of` rules it out) and only
/// carries the termination measure.
pub open spec fn ports_value(s: Seq<char>) -> Option<Seq<int>>
    decreases s.len(),
{
    let d = first_index_of(s, '.');
    if d < 0 {
        if valid_u8_group(s) {
            Some(seq![dec_value(s)])
        } else {
            None
        }
    } else if !(d < s.len()) {
        None
    } else if !valid_u8_group(s.take(d)) {
        None
    } else {
        match ports_value(s.skip(d + 1)) {
            Option::Some(rest) => Some(seq![dec_value(s.take(d))] + rest),
            Option::None => None,
        }
    }
}

/// What a device specification `<serial>:<bus>-<p1>.<p2>...` denotes:
/// the serial name, the bus number and the port values, or nothing
/// when the shape is not met.
pub open spec fn device_opt_spec(s: Seq<char>) -> Option<(Seq<char>, int, Seq<int>)> {
    let c = first_index_of(s, ':');
    if c < 0 {
        None
    } else {
        let u = s.skip(c + 1);
        let d = first_index_of(u, '-');
        if d < 0 {
            None
        } else if !valid_u8_group(u.take(d)) {
            None
        } else {
            match ports_value(u.skip(d + 1)) {
                Option::Some(ps) => Some((s.take(c), dec_value(u.take(d)), ps)),
                Option::None => None,
            }
        }
    }
}

/// One parsed device specification: the serial device path under
/// `/dev`, and the USB position.
#[derive(Debug)]
pub struct DeviceOpt {
    pub serial: String,
    pub bus: u8,
    pub ports: Vec<u8>,
}

/// The value of a digit run is never negative.
proof fn lemma_dec_value_nonneg(s: Seq<char>)
    requires
        forall|i: int| 0 <= i < s.len() ==> is_digit(#[trigger] s[i]),
    ensures
        dec_value(s) >= 0,
    decreases s.len(),
{
    if s.len() > 0 {
        lemma_dec_value_nonneg(s.drop_last());
    }
}

/// Extending a digit run never shrinks its value.
proof fn lemma_dec_value_monotone(g: Seq<char>, i: int, j: int)
    requires
        0 <= i <= j <= g.len(),
        forall|k: int| 0 <= k < g.len() ==> is_digit(#[trigger] g[k]),
    ensures
        dec_value(g.take(j)) >= dec_value(g.take(i)),
    decreases j - i,
{
    if i < j {
        lemma_dec_value_monotone(g, i, j - 1);
        assert(g.take(j).drop_last() =~= g.take(j - 1));
        assert forall|k: int| 0 <= k < g.take(j - 1).len() implies is_digit(
            #[trigger] g.take(j - 1)[k],
        ) by {}
        lemma_dec_value_nonneg(g.take(j - 1));
    }
}

/// One character read as a digit.
fn digit_of(c: char) -> (r: Option<u8>)
    ensures
        r is Some <==> is_digit(c),
        r matches Some(d) ==> d == digit_value(c),
{
    match c {
        '0' => Some(0),
        '1' => Some(1),
        '2' => Some(2),
        '3' => Some(3),
        '4' => Some(4),
        '5' => Some(5),
        '6' => Some(6),
        '7' => Some(7),
        '8' => Some(8),
        '9' => Some(9),
        _ => None,
    }
}

/// First position of `c` in `s` at or after `from`.
fn find_char(s: &str, from: usize, total: usize, c: char) -> (r: Option<usize>)
    requires
        from <= total,
        total == s@.len(),
    ensures
        r matches Some(i) ==> from <= i < s@.len() && s@[i as int] == c && forall|k: int|
            from <= k < i ==> s@[k] != c,
        r is None ==> forall|k: int| from <= k < s@.len() ==> s@[k] != c,
{
    let mut i: usize = from;
    while i < total
        invariant
            from <= i <= total,
            total == s@.len(),
            forall|k: int| from <= k < i ==> s@[k] != c,
        decreases total - i,
    {
        if s.get_char(i) == c {
            return Some(i);
        }
        i += 1;
    }
    None
}

/// Reads the digit group `s[from..to]` as a byte value.
fn parse_u8_digits(s: &str, from: usize, to: usize) -> (r: Option<u8>)
    requires
        from <= to <= s@.len(),
    ensures
        r is Some <==> valid_u8_group(s@.subrange(from as int, to as int)),
        r matches Some(v) ==> v == dec_value(s@.subrange(from as int, to as int)),
{
    let ghost g = s@.subrange(from as int, to as int);
    if from == to {
        return None;
    }
    let mut acc: u32 = 0;
    let mut i: usize = from;
    while i < to
        invariant
            from <= i <= to <= s@.len(),
            from < to,
            g == s@.subrange(from as int, to as int),
            forall|k: int| 0 <= k < i - from ==> is_digit(#[trigger] g[k]),
            acc == dec_value(g.take(i - from)),
            acc <= 255,
        decreases to - i,
    {
        let c = s.get_char(i);
        proof {
            assert(g[i - from] == c);
            assert(g.take(i - from + 1).drop_last() =~= g.take(i - from));
            assert(g.take(i - from + 1).last() == c);
        }
        let d = match digit_of(c) {
            None => {
                return None;
            },
            Some(d) => d,
        };
        let next = acc * 10 + d as u32;
        if next > 255 {
            proof {
                if valid_u8_group(g) {
                    lemma_dec_value_monotone(g, i - from + 1, g.len() as int);
                    assert(g.take(g.len() as int) =~= g);
                    assert(dec_value(g) >= dec_value(g.take(i - from + 1)));
                    assert(false);
                }
            }
            return None;
        }
        acc = next;
        i += 1;
    }
    proof {
        assert(g.take(g.len() as int) =~= g);
    }
    Some(acc as u8)
}

/// Reads the dot-joined port groups of `s[from..]`, appending their
/// values; says whether the whole chain was valid.
fn parse_ports_into(s: &str, from: usize, total: usize, out: &mut Vec<u8>) -> (ok: bool)
    requires
        from <= total,
        total == s@.len(),
    ensures
        ok <==> ports_value(s@.skip(from as int)) is Some,
        ok ==> {
            let ps = ports_value(s@.skip(from as int))->Some_0;
            &&& final(out)@.len() == old(out)@.len() + ps.len()
            &&& forall|k: int| 0 <= k < old(out)@.len() ==> final(out)@[k] == old(out)@[k]
            &&& forall|k: int|
                0 <= k < ps.len() ==> final(out)@[old(out)@.len() + k] == ps[k]
        },
    decreases total - from,
{
    let ghost u = s@.skip(from as int);
    proof {
        lemma_first_index_of(u, '.');
    }
    match find_char(s, from, total, '.') {
        None => {
            proof {
                assert forall|k: int| 0 <= k < u.len() implies u[k] != '.' by {
                    assert(u[k] == s@[from + k]);
                }
                assert(first_index_of(u, '.') == -1);
                assert(u =~= s@.subrange(from as int, total as int));
            }
            match parse_u8_digits(s, from, total) {
                None => false,
                Some(v) => {
                    out.push(v);
                    true
                },
            }
        },
        Some(j) => {
            proof {
                assert(u[j - from] == '.');
                assert forall|k: int| 0 <= k < j - from implies u[k] != '.' by {
                    assert(u[k] == s@[from + k]);
                }
                if first_index_of(u, '.') == -1 {
                    assert(false);
                }
                assert(first_index_of(u, '.') == j - from);
                assert(u.take(j - from) =~= s@.subrange(from as int, j as int));
                assert(u.skip(j - from + 1) =~= s@.skip(j as int + 1));
            }
            let v = match parse_u8_digits(s, from, j) {
                None => {
                    return false;
                },
                Some(v) => v,
            };
            out.push(v);
            let ghost mid = out@;
            let ok = parse_ports_into(s, j + 1, total, out);
            proof {
                if ok {
                    let rest = ports_value(s@.skip(j as int + 1))->Some_0;
                    let ps = ports_value(u)->Some_0;
                    assert(ps =~= seq![dec_value(u.take(j - from))] + rest);
                }
            }
            ok
        },
    }
}

/// Parses one device specification `<serial>:<bus>-<p1>.<p2>...`. The
/// serial names a character device under `/dev`; the bus and each port
/// are decimal bytes. Returns nothing exactly when the shape is not
/// met.
pub fn parse_device_opt(s: &str) -> (r: Option<DeviceOpt>)
    ensures
        (r is Some) == (device_opt_spec(s@) is Some),
        r matches Some(o) ==> {
            let (serial, bus, ports) = device_opt_spec(s@)->Some_0;
            &&& o.serial@ == "/dev/"@ + serial
            &&& o.bus == bus
            &&& o.ports@.len() == ports.len()
            &&& forall|k: int| 0 <= k < ports.len() ==> o.ports@[k] == ports[k]
        },
{
    let total = s.unicode_len();
    proof {
        lemma_first_index_of(s@, ':');
    }
    let ci = match find_char(s, 0, total, ':') {
        None => {
            proof {
                if first_index_of(s@, ':') != -1 {
                    assert(false);
                }
            }
            return None;
        },
        Some(ci) => ci,
    };
    proof {
        if first_index_of(s@, ':') == -1 {
            assert(false);
        }
        assert(first_index_of(s@, ':') == ci);
    }
    let ghost u = s@.skip(ci as int + 1);
    proof {
        lemma_first_index_of(u, '-');
    }
    let j = match find_char(s, ci + 1, total, '-') {
        None => {
            proof {
                assert forall|k: int| 0 <= k < u.len() implies u[k] != '-' by {
                    assert(u[k] == s@[ci + 1 + k]);
                }
                assert(first_index_of(u, '-') == -1);
            }
            return None;
        },
        Some(j) => j,
    };
    proof {
        assert(u[j - ci - 1] == '-');
        assert forall|k: int| 0 <= k < j - ci - 1 implies u[k] != '-' by {
            assert(u[k] == s@[ci + 1 + k]);
        }
        if first_index_of(u, '-') == -1 {
            assert(false);
        }
        assert(first_index_of(u, '-') == j - ci - 1);
        assert(u.take(j - ci - 1) =~= s@.subrange(ci as int + 1, j as int));
        assert(u.skip(j - ci) =~= s@.skip(j as int + 1));
    }
    let bus = match parse_u8_digits(s, ci + 1, j) {
        None => {
            return None;
        },
        Some(v) => v,
    };
    let mut ports: Vec<u8> = Vec::new();
    if !parse_ports_into(s, j + 1, total, &mut ports) {
        return None;
    }
    let mut serial = String::from_str("/dev/");
    let name = s.substring_char(0, ci);
    serial.append(name);
    Some(DeviceOpt { serial, bus, ports })
}

/// The port chain as printed: port values joined with dots.
pub open spec fn ports_display(ps: Seq<u8>) -> Seq<char>
    decreases ps.len(),
{
    if ps.len() == 0 {
        Seq::empty()
    } else if ps.len() == 1 {
        crate::text::dec_seq(ps[0] as nat)
    } else {
        ports_display(ps.drop_last()) + seq!['.'] + crate::text::dec_seq(ps.last() as nat)
    }
}

/// A device specification as printed: `<serial>:<bus>-<p1>.<p2>...`,
/// with the serial as the full stored path.
pub open spec fn device_opt_display(o: DeviceOpt) -> Seq<char> {
    o.serial@ + ":"@ + crate::text::dec_seq(o.bus as nat) + "-"@ + ports_display(o.ports@)
}

/// Renders the first `upto` ports, dot-joined.
pub fn ports_prefix_string(ports: &Vec<u8>, upto: usize) -> (r: String)
    requires
        upto <= ports@.len(),
    ensures
        r@ == ports_display(ports@.take(upto as int)),
{
    let mut out = String::new();
    proof {
        assert(out@ =~= ports_display(ports@.take(0)));
    }
    let mut k: usize = 0;
    while k < upto
        invariant
            k <= upto <= ports@.len(),
            out@ == ports_display(ports@.take(k as int)),
        decreases upto - k,
    {
        if k > 0 {
            out.append(".");
            proof {
                reveal_strlit(".");
                assert("."@ =~= seq!['.']);
            }
        }
        let p = crate::text::dec_u64(ports[k] as u64);
        out.append(p.as_str());
        proof {
            let t = ports@.take(k as int + 1);
            assert(t.drop_last() =~= ports@.take(k as int));
            assert(t.last() == ports@[k as int]);
            assert(out@ =~= ports_display(t));
        }
        k += 1;
    }
    out
}

impl DeviceOpt {
    /// Renders the specification, for startup reports.
    pub fn display(&self) -> (r: String)
        ensures
            r@ == device_opt_display(*self),
    {
        let mut out = self.serial.clone();
        out.append(":");
        let bus = crate::text::dec_u64(self.bus as u64);
        out.append(bus.as_str());
        out.append("-");
        let tail = ports_prefix_string(&self.ports, self.ports.len());
        out.append(tail.as_str());
        proof {
            assert(self.ports@.take(self.ports@.len() as int) =~= self.ports@);
            assert(out@ =~= device_opt_display(*self));
        }
        out
    }
}

/// A specification names an enumerated USB position: same bus, same
/// port chain.
pub open spec fn opt_matches_position(o: DeviceOpt, bus: u8, ports: Seq<u8>) -> bool {
    o.bus == bus && o.ports@ == ports
}

/// Index of the first specification matching the position, or -1.
pub open spec fn first_match_index(opts: Seq<DeviceOpt>, bus: u8, ports: Seq<u8>) -> int
    decreases opts.len(),
{
    if opts.len() == 0 {
        -1
    } else if opt_matches_position(opts[0], bus, ports) {
        0
    } else {
        let r = first_match_index(opts.drop_first(), bus, ports);
        if r < 0 {
            -1
        } else {
            r + 1
        }
    }
}

/// What `first_match_index` finds.
pub proof fn lemma_first_match_index(opts: Seq<DeviceOpt>, bus: u8, ports: Seq<u8>)
    ensures
        first_match_index(opts, bus, ports) == -1 ==> forall|k: int|
            0 <= k < opts.len() ==> !opt_matches_position(#[trigger] opts[k], bus, ports),
        first_match_index(opts, bus, ports) != -1 ==> {
            let r = first_match_index(opts, bus, ports);
            &&& 0 <= r < opts.len()
            &&& opt_matches_position(opts[r], bus, ports)
            &&& forall|k: int| 0 <= k < r ==> !opt_matches_position(#[trigger] opts[k], bus, ports)
        },
    decreases opts.len(),
{
    if opts.len() > 0 && !opt_matches_position(opts[0], bus, ports) {
        lemma_first_match_index(opts.drop_first(), bus, ports);
        let t = opts.drop_first();
        assert forall|k: int| 1 <= k < opts.len() implies opts[k] == t[k - 1] by {}
    }
}

/// Startup matching, one enumerated position at a time: the first
/// remaining specification naming the position, if any, leaves the
/// remainder and binds its serial to the position. The bounds gate on
/// the match index never fires and only keeps the removal in range.
pub open spec fn match_run(opts: Seq<DeviceOpt>, found: Seq<(u8, Vec<u8>)>, i: int) -> (
    Seq<DeviceOpt>,
    Seq<DeviceCtl>,
)
    decreases i,
{
    if i <= 0 {
        (opts, Seq::<DeviceCtl>::empty())
    } else {
        let (rem, ctls) = match_run(opts, found, i - 1);
        let bus = found[i - 1].0;
        let ports = found[i - 1].1@;
        let m = first_match_index(rem, bus, ports);
        if m < 0 || m >= rem.len() {
            (rem, ctls)
        } else {
            (
                rem.remove(m),
                ctls.push(
                    DeviceCtl { serial: rem[m].serial, bus: rem[m].bus, ports: rem[m].ports },
                ),
            )
        }
    }
}

/// Whether two port chains are equal.
fn ports_eq(a: &Vec<u8>, b: &Vec<u8>) -> (r: bool)
    ensures
        r == (a@ == b@),
{
    if a.len() != b.len() {
        return false;
    }
    let mut i: usize = 0;
    while i < a.len()
        invariant
            i <= a@.len(),
            a@.len() == b@.len(),
            forall|k: int| 0 <= k < i ==> a@[k] == b@[k],
        decreases a@.len() - i,
    {
        if a[i] != b[i] {
            return false;
        }
        i += 1;
    }
    proof {
        assert(a@ =~= b@);
    }
    true
}

/// First specification matching the position, if any.
fn find_match(opts: &Vec<DeviceOpt>, bus: u8, ports: &Vec<u8>) -> (r: Option<usize>)
    ensures
        r matches Some(m) ==> m < opts@.len() && opt_matches_position(
            opts@[m as int],
            bus,
            ports@,
        ) && forall|k: int| 0 <= k < m ==> !opt_matches_position(#[trigger] opts@[k], bus, ports@),
        r is None ==> forall|k: int|
            0 <= k < opts@.len() ==> !opt_matches_position(#[trigger] opts@[k], bus, ports@),
{
    let mut m: usize = 0;
    while m < opts.len()
        invariant
            m <= opts@.len(),
            forall|k: int| 0 <= k < m ==> !opt_matches_position(#[trigger] opts@[k], bus, ports@),
        decreases opts@.len() - m,
    {
        if opts[m].bus == bus && ports_eq(&opts[m].ports, ports) {
            return Some(m);
        }
        m += 1;
    }
    None
}

/// Matches the parsed specifications against the enumerated USB
/// positions, in enumeration order: each position takes the first
/// remaining specification that names it. Returns the bound devices
/// and the specifications left unmatched, which the runner treats as a
/// startup failure.
pub fn match_devices(opts: Vec<DeviceOpt>, found: &Vec<(u8, Vec<u8>)>) -> (r: (
    Vec<DeviceCtl>,
    Vec<DeviceOpt>,
))
    ensures
        r.0@ == match_run(opts@, found@, found@.len() as int).1,
        r.1@ == match_run(opts@, found@, found@.len() as int).0,
{
    let mut rem = opts;
    let ghost opts0 = rem@;
    let mut ctls: Vec<DeviceCtl> = Vec::new();
    let mut i: usize = 0;
    while i < found.len()
        invariant
            i <= found@.len(),
            rem@ == match_run(opts0, found@, i as int).0,
            ctls@ == match_run(opts0, found@, i as int).1,
        decreases found@.len() - i,
    {
        let bus = found[i].0;
        proof {
            lemma_first_match_index(rem@, bus, found@[i as int].1@);
        }
        match find_match(&rem, bus, &found[i].1) {
            Some(m) => {
                proof {
                    if first_match_index(rem@, bus, found@[i as int].1@) == -1 {
                        assert(false);
                    }
                    assert(first_match_index(rem@, bus, found@[i as int].1@) == m as int);
                }
                let taken = rem.remove(m);
                ctls.push(DeviceCtl { serial: taken.serial, bus: taken.bus, ports: taken.ports });
            },
            None => {
                proof {
                    if first_match_index(rem@, bus, found@[i as int].1@) != -1 {
                        assert(false);
                    }
                }
            },
        }
        i += 1;
    }
    (ctls, rem)
}

} // verus!
