//! The text wire protocol. A peer's message reads
//! `"<User#N>: x,y,pressed"`: a sender label the relay prefixed, then the
//! sample the sender encoded. Coordinates are decimal numbers with at most
//! three fractional digits, read exactly into millipixel fixed point;
//! `pressed` is the literal `true` or `false`. Decoding recenters the
//! coordinates from canvas-center-relative to surface coordinates.

use vstd::prelude::*;

use crate::event::{CanvasDims, Coord, DrawEvent, Point, WIRE_COORD_LIMIT};
use crate::num::{
    all_digits, digit_val, digits_of, digits_val, is_digit, lemma_digits_of_correct,
    lemma_digits_val_nonneg, lemma_digits_val_upper, lemma_pow10_pos, lemma_pow10_small,
    parse_digits, pow10, render_digits,
};
use vstd::arithmetic::mul::lemma_mul_nonnegative;

verus! {

/// Why an inbound wire message was rejected. A rejected message is dropped;
/// the connection itself stays usable.
#[derive(Clone, Copy, Debug, PartialEq, Eq, Structural)]
pub enum ProtocolError {
    /// The message does not split into a label, `": "`, and three
    /// comma-separated fields.
    Malformed,
    /// The sender label holds no digits, or more than an identity can hold.
    BadUserId,
    /// A coordinate or the pressed flag does not parse.
    BadField,
}

/// Index of the first occurrence of `b` in `s` at or after `i`, or -1.
pub open spec fn find_from(s: Seq<u8>, b: u8, i: int) -> int
    decreases s.len() - i,
{
    if i >= s.len() {
        -1
    } else if s[i] == b {
        i
    } else {
        find_from(s, b, i + 1)
    }
}

/// What `find_from` returns: the first occurrence, or -1 when there is none.
pub proof fn lemma_find_from(s: Seq<u8>, b: u8, i: int)
    requires
        0 <= i <= s.len(),
    ensures
        find_from(s, b, i) == -1 ==> forall|j: int| i <= j < s.len() ==> s[j] != b,
        find_from(s, b, i) != -1 ==> i <= find_from(s, b, i) < s.len() && s[find_from(s, b, i)] == b
            && forall|j: int| i <= j < find_from(s, b, i) ==> s[j] != b,
    decreases s.len() - i,
{
    if i < s.len() && s[i] != b {
        lemma_find_from(s, b, i + 1);
    }
}

/// An occurrence at `k` with none before it pins `find_from` to `k`.
pub proof fn lemma_find_from_at(s: Seq<u8>, b: u8, i: int, k: int)
    requires
        0 <= i <= k < s.len(),
        s[k] == b,
        forall|j: int| i <= j < k ==> s[j] != b,
    ensures
        find_from(s, b, i) == k,
    decreases k - i,
{
    if i < k {
        lemma_find_from_at(s, b, i + 1, k);
    }
}

/// First occurrence of `b` in `s` at or after `from`, executable.
pub fn find_byte(s: &[u8], b: u8, from: usize) -> (r: Option<usize>)
    requires
        from <= s@.len(),
    ensures
        match r {
            Some(k) => k == find_from(s@, b, from as int),
            None => find_from(s@, b, from as int) == -1,
        },
{
    let mut i: usize = from;
    while i < s.len()
        invariant
            from <= i <= s@.len(),
            forall|j: int| from <= j < i ==> s@[j] != b,
        decreases s@.len() - i,
    {
        if s[i] == b {
            proof {
                lemma_find_from_at(s@, b, from as int, i as int);
            }
            return Some(i);
        }
        i = i + 1;
    }
    proof {
        lemma_find_from(s@, b, from as int);
        if find_from(s@, b, from as int) != -1 {
            assert(s@[find_from(s@, b, from as int)] == b);
        }
    }
    None
}

/// The magnitude part of a coordinate token: the token without its sign.
pub open spec fn coord_mag(s: Seq<u8>) -> Seq<u8> {
    if s.len() > 0 && s[0] == 45 {
        s.skip(1)
    } else {
        s
    }
}

/// The token shape a coordinate field must have: an optional `'-'`, one or
/// more integer digits, and optionally a `'.'` with one to three fraction
/// digits.
pub open spec fn coord_token(s: Seq<u8>) -> bool {
    let m = coord_mag(s);
    let dot = find_from(m, 46, 0);
    if dot == -1 {
        m.len() >= 1 && all_digits(m)
    } else {
        dot >= 1 && all_digits(m.take(dot)) && 1 <= m.len() - dot - 1 <= 3 && all_digits(
            m.skip(dot + 1),
        )
    }
}

/// Millipixel value of a coordinate magnitude (no sign).
pub open spec fn coord_mag_val(m: Seq<u8>) -> int {
    let dot = find_from(m, 46, 0);
    if dot == -1 {
        digits_val(m) * 1000
    } else {
        digits_val(m.take(dot)) * 1000 + digits_val(m.skip(dot + 1)) * pow10(
            (3 - (m.len() - dot - 1)) as nat,
        )
    }
}

/// Millipixel value of a signed coordinate token.
pub open spec fn coord_val(s: Seq<u8>) -> int {
    if s.len() > 0 && s[0] == 45 {
        -coord_mag_val(s.skip(1))
    } else {
        coord_mag_val(s)
    }
}

/// The token parses and its value rides the wire.
pub open spec fn coord_field_ok(s: Seq<u8>) -> bool {
    coord_token(s) && -WIRE_COORD_LIMIT <= coord_val(s) <= WIRE_COORD_LIMIT
}

/// Parse one coordinate field into millipixels.
pub fn parse_coord(s: &[u8]) -> (r: Result<i64, ()>)
    ensures
        match r {
            Ok(v) => coord_field_ok(s@) && v == coord_val(s@),
            Err(()) => !coord_field_ok(s@),
        },
{
    let neg = s.len() > 0 && s[0] == 45;
    let start: usize = if neg {
        1
    } else {
        0
    };
    let m = vstd::slice::slice_subrange(s, start, s.len());
    proof {
        assert(m@ =~= coord_mag(s@));
    }
    let mag: i64 = match find_byte(m, 46, 0) {
        None => {
            let v = match parse_digits(m, 1_000_000_000_000_000) {
                Ok(v) => v,
                Err(()) => {
                    proof {
                        if coord_token(s@) {
                            // The magnitude is all digits, so only the limit
                            // can have failed, and the value is then far out
                            // of wire range.
                            lemma_digits_val_nonneg(m@);
                        }
                    }
                    return Err(());
                },
            };
            if v > 1_000_000_000_000 {
                proof {
                    lemma_digits_val_nonneg(m@);
                }
                return Err(());
            }
            (v as i64) * 1000
        },
        Some(dot) => {
            proof {
                lemma_find_from(m@, 46, 0);
            }
            if dot == 0 {
                return Err(());
            }
            let ipart = vstd::slice::slice_subrange(m, 0, dot);
            proof {
                assert(ipart@ =~= m@.take(dot as int));
            }
            let iv = match parse_digits(ipart, 1_000_000_000_000_000) {
                Ok(v) => v,
                Err(()) => {
                    proof {
                        if coord_token(s@) {
                            // The shape holds, so only the limit failed and
                            // the value is far out of wire range.
                            let fd = m@.skip(dot as int + 1);
                            lemma_digits_val_nonneg(ipart@);
                            lemma_digits_val_nonneg(fd);
                            lemma_pow10_pos((3 - fd.len()) as nat);
                            lemma_mul_nonnegative(
                                digits_val(fd),
                                pow10((3 - fd.len()) as nat),
                            );
                        }
                    }
                    return Err(());
                },
            };
            let flen = s.len() - start - dot - 1;
            if flen < 1 || flen > 3 {
                return Err(());
            }
            let fpart = vstd::slice::slice_subrange(m, dot + 1, s.len() - start);
            proof {
                assert(fpart@ =~= m@.skip(dot as int + 1));
            }
            let fv = match parse_digits(fpart, 999) {
                Ok(v) => v,
                Err(()) => {
                    proof {
                        if coord_token(s@) {
                            // At most three digits read at most 999, so the
                            // shape cannot hold here.
                            lemma_digits_val_upper(fpart@);
                            lemma_pow10_small();
                        }
                    }
                    return Err(());
                },
            };
            let scale: i64 = if flen == 1 {
                100
            } else if flen == 2 {
                10
            } else {
                1
            };
            proof {
                lemma_pow10_small();
                assert(scale == pow10((3 - fpart@.len()) as nat));
            }
            if iv > 1_000_000_000_000 {
                proof {
                    lemma_digits_val_nonneg(ipart@);
                    lemma_digits_val_nonneg(fpart@);
                    lemma_mul_nonnegative(digits_val(fpart@), pow10((3 - fpart@.len()) as nat));
                }
                return Err(());
            }
            (iv as i64) * 1000 + (fv as i64) * scale
        },
    };
    let v: i64 = if neg {
        -mag
    } else {
        mag
    };
    if v < -WIRE_COORD_LIMIT || WIRE_COORD_LIMIT < v {
        return Err(());
    }
    Ok(v)
}

/// Three zero-padded fraction digits of a millipixel remainder.
pub open spec fn pad3(f: int) -> Seq<u8> {
    seq![(48 + f / 100) as u8, (48 + (f / 10) % 10) as u8, (48 + f % 10) as u8]
}

/// Canonical rendering of a nonnegative millipixel value: whole pixels,
/// then a three-digit fraction only when it is not zero.
pub open spec fn spec_render_mag(m: nat) -> Seq<u8> {
    digits_of(m / 1000) + if m % 1000 == 0 {
        Seq::<u8>::empty()
    } else {
        seq![46u8] + pad3(m as int % 1000)
    }
}

/// Canonical rendering of a signed millipixel coordinate.
pub open spec fn spec_render_coord(v: int) -> Seq<u8> {
    if v < 0 {
        seq![45u8] + spec_render_mag((-v) as nat)
    } else {
        spec_render_mag(v as nat)
    }
}

proof fn lemma_pad3_val(f: int)
    requires
        0 <= f < 1000,
    ensures
        pad3(f).len() == 3,
        all_digits(pad3(f)),
        digits_val(pad3(f)) == f,
{
    let p = pad3(f);
    assert(0 <= f / 100 <= 9 && 0 <= (f / 10) % 10 <= 9 && 0 <= f % 10 <= 9) by (nonlinear_arith)
        requires
            0 <= f < 1000,
    ;
    assert(digits_val(seq![p[0]]) == digit_val(p[0])) by {
        assert(seq![p[0]].drop_last() =~= Seq::<u8>::empty());
        assert(digits_val(Seq::<u8>::empty()) == 0);
    }
    assert(digits_val(seq![p[0], p[1]]) == digit_val(p[0]) * 10 + digit_val(p[1])) by {
        assert(seq![p[0], p[1]].drop_last() =~= seq![p[0]]);
    }
    assert(digits_val(p) == (digit_val(p[0]) * 10 + digit_val(p[1])) * 10 + digit_val(p[2])) by {
        assert(p.drop_last() =~= seq![p[0], p[1]]);
        assert(p.last() == p[2]);
    }
    vstd::arithmetic::div_mod::lemma_fundamental_div_mod(f, 10);
    vstd::arithmetic::div_mod::lemma_fundamental_div_mod(f / 10, 10);
    vstd::arithmetic::div_mod::lemma_div_denominator(f, 10, 10);
}

/// The canonical rendering of a magnitude is a well-shaped unsigned token
/// and reads back as the same millipixel value.
proof fn lemma_render_mag(m: nat)
    ensures
        spec_render_mag(m).len() >= 1,
        is_digit(spec_render_mag(m)[0]),
        coord_token(spec_render_mag(m)),
        coord_mag_val(spec_render_mag(m)) == m,
        find_from(spec_render_mag(m), 46, 0) == if m % 1000 == 0 {
            -1int
        } else {
            digits_of(m / 1000).len() as int
        },
{
    let d = digits_of(m / 1000);
    let t = spec_render_mag(m);
    lemma_digits_of_correct(m / 1000);
    vstd::arithmetic::div_mod::lemma_fundamental_div_mod(m as int, 1000);
    if m % 1000 == 0 {
        assert(t =~= d);
        lemma_find_from(t, 46, 0);
        let r = find_from(t, 46, 0);
        if r != -1 {
            assert(is_digit(t[r]));
            assert(false);
        }
        assert(t[0] == d[0]);
    } else {
        let f = m as int % 1000;
        lemma_pad3_val(f);
        assert(t.len() == d.len() + 4);
        assert(t[d.len() as int] == 46);
        assert(forall|j: int| 0 <= j < d.len() ==> t[j] == d[j]);
        lemma_find_from_at(t, 46, 0, d.len() as int);
        let dot = d.len() as int;
        assert(t.take(dot) =~= d);
        assert(t.skip(dot + 1) =~= pad3(f));
        lemma_pow10_small();
        assert(coord_mag_val(t) == digits_val(d) * 1000 + digits_val(pad3(f)) * pow10(0));
    }
}

/// The canonical rendering of any millipixel value is a well-shaped token
/// that reads back exactly.
pub proof fn lemma_render_coord_reads_back(v: int)
    ensures
        coord_token(spec_render_coord(v)),
        coord_val(spec_render_coord(v)) == v,
{
    let s = spec_render_coord(v);
    if v < 0 {
        let t = spec_render_mag((-v) as nat);
        lemma_render_mag((-v) as nat);
        assert(s[0] == 45);
        assert(s.skip(1) =~= t);
    } else {
        lemma_render_mag(v as nat);
        assert(s[0] != 45);
    }
}

/// Render a millipixel coordinate as its canonical wire token.
pub fn render_coord(v: i64) -> (r: Vec<u8>)
    requires
        v > i64::MIN,
    ensures
        r@ == spec_render_coord(v as int),
{
    let neg = v < 0;
    let m: u64 = if neg {
        (-v) as u64
    } else {
        v as u64
    };
    let mut out: Vec<u8> = Vec::new();
    if neg {
        out.push(45);
    }
    let mut digs = render_digits(m / 1000);
    out.append(&mut digs);
    let fr = m % 1000;
    if fr != 0 {
        out.push(46);
        out.push(48 + (fr / 100) as u8);
        out.push(48 + ((fr / 10) % 10) as u8);
        out.push(48 + (fr % 10) as u8);
    }
    proof {
        assert(out@ =~= spec_render_coord(v as int));
    }
    out
}

proof fn lemma_render_mag_no_comma(m: nat)
    ensures
        forall|j: int| 0 <= j < spec_render_mag(m).len() ==> spec_render_mag(m)[j] != 44,
{
    let d = digits_of(m / 1000);
    let t = spec_render_mag(m);
    lemma_digits_of_correct(m / 1000);
    if m % 1000 == 0 {
        assert(t =~= d);
        assert forall|j: int| 0 <= j < t.len() implies t[j] != 44 by {
            assert(is_digit(d[j]));
        }
    } else {
        let f = m as int % 1000;
        lemma_pad3_val(f);
        assert forall|j: int| 0 <= j < t.len() implies t[j] != 44 by {
            if j < d.len() {
                assert(t[j] == d[j]);
                assert(is_digit(d[j]));
            } else if j == d.len() {
                assert(t[j] == 46);
            } else {
                assert(t[j] == pad3(f)[j - d.len() - 1]);
                assert(is_digit(pad3(f)[j - d.len() - 1]));
            }
        }
    }
}

/// A coordinate token never holds a comma, so splitting on commas cannot
/// cut one apart.
proof fn lemma_render_coord_no_comma(v: int)
    ensures
        forall|j: int| 0 <= j < spec_render_coord(v).len() ==> spec_render_coord(v)[j] != 44,
{
    let s = spec_render_coord(v);
    if v < 0 {
        let t = spec_render_mag((-v) as nat);
        lemma_render_mag_no_comma((-v) as nat);
        assert forall|j: int| 0 <= j < s.len() implies s[j] != 44 by {
            if j == 0 {
                assert(s[j] == 45);
            } else {
                assert(s[j] == t[j - 1]);
            }
        }
    } else {
        lemma_render_mag_no_comma(v as nat);
    }
}

/// A `": "` label separator starts at `i`.
pub open spec fn sep_at(s: Seq<u8>, i: int) -> bool {
    0 <= i && i + 2 <= s.len() && s[i] == 58 && s[i + 1] == 32
}

/// Index of the first `": "` at or after `i`, or -1.
pub open spec fn find_sep_from(s: Seq<u8>, i: int) -> int
    decreases s.len() - i,
{
    if i + 2 > s.len() {
        -1
    } else if sep_at(s, i) {
        i
    } else {
        find_sep_from(s, i + 1)
    }
}

/// Index of the first `": "` in `s`, or -1.
pub open spec fn find_sep(s: Seq<u8>) -> int {
    find_sep_from(s, 0)
}

pub proof fn lemma_find_sep_from(s: Seq<u8>, i: int)
    requires
        0 <= i,
    ensures
        find_sep_from(s, i) == -1 ==> forall|j: int| i <= j ==> !sep_at(s, j),
        find_sep_from(s, i) != -1 ==> i <= find_sep_from(s, i) && sep_at(s, find_sep_from(s, i))
            && forall|j: int| i <= j < find_sep_from(s, i) ==> !sep_at(s, j),
    decreases s.len() - i,
{
    if i + 2 <= s.len() && !sep_at(s, i) {
        lemma_find_sep_from(s, i + 1);
    }
}

pub proof fn lemma_find_sep_at(s: Seq<u8>, i: int, k: int)
    requires
        0 <= i <= k,
        sep_at(s, k),
        forall|j: int| i <= j < k ==> !sep_at(s, j),
    ensures
        find_sep_from(s, i) == k,
    decreases k - i,
{
    if i < k {
        lemma_find_sep_at(s, i + 1, k);
    }
}

/// First `": "` in `s`, executable.
fn find_sep_bytes(s: &[u8]) -> (r: Option<usize>)
    ensures
        match r {
            Some(k) => k as int == find_sep(s@) && sep_at(s@, k as int),
            None => find_sep(s@) == -1,
        },
{
    if s.len() < 2 {
        proof {
            lemma_find_sep_from(s@, 0);
            let r = find_sep(s@);
            if r != -1 {
                assert(sep_at(s@, r));
                assert(false);
            }
        }
        return None;
    }
    let mut i: usize = 0;
    while i <= s.len() - 2
        invariant
            s@.len() >= 2,
            i <= s@.len(),
            forall|j: int| 0 <= j < i ==> !sep_at(s@, j),
        decreases s@.len() - i,
    {
        if s[i] == 58 && s[i + 1] == 32 {
            proof {
                lemma_find_sep_at(s@, 0, i as int);
            }
            return Some(i);
        }
        i = i + 1;
    }
    proof {
        lemma_find_sep_from(s@, 0);
        let r = find_sep(s@);
        if r != -1 {
            assert(sep_at(s@, r));
            assert(false);
        }
    }
    None
}

/// The digits of `s`, in order, everything else dropped.
pub open spec fn digit_seq(s: Seq<u8>) -> Seq<u8>
    decreases s.len(),
{
    if s.len() == 0 {
        Seq::<u8>::empty()
    } else if is_digit(s.last()) {
        digit_seq(s.drop_last()).push(s.last())
    } else {
        digit_seq(s.drop_last())
    }
}

pub proof fn lemma_digit_seq_all_digits(s: Seq<u8>)
    ensures
        all_digits(digit_seq(s)),
    decreases s.len(),
{
    if s.len() > 0 {
        lemma_digit_seq_all_digits(s.drop_last());
    }
}

proof fn lemma_digit_seq_take_step(s: Seq<u8>, i: int)
    requires
        0 <= i < s.len(),
    ensures
        digit_seq(s.take(i + 1)) == if is_digit(s[i]) {
            digit_seq(s.take(i)).push(s[i])
        } else {
            digit_seq(s.take(i))
        },
{
    assert(s.take(i + 1).drop_last() =~= s.take(i));
    assert(s.take(i + 1).last() == s[i]);
}

/// Keep only the ASCII digits of `s`.
pub fn digit_bytes(s: &[u8]) -> (r: Vec<u8>)
    ensures
        r@ == digit_seq(s@),
{
    let mut out: Vec<u8> = Vec::new();
    let mut i: usize = 0;
    while i < s.len()
        invariant
            0 <= i <= s@.len(),
            out@ == digit_seq(s@.take(i as int)),
        decreases s@.len() - i,
    {
        let b = s[i];
        proof {
            lemma_digit_seq_take_step(s@, i as int);
        }
        if 48 <= b && b <= 57 {
            out.push(b);
        }
        i = i + 1;
    }
    proof {
        assert(s@.take(s@.len() as int) =~= s@);
    }
    out
}

/// The wire spelling of the pressed flag: the literal `true` or `false`.
pub open spec fn bool_bytes(p: bool) -> Seq<u8> {
    if p {
        seq![116u8, 114u8, 117u8, 101u8]
    } else {
        seq![102u8, 97u8, 108u8, 115u8, 101u8]
    }
}

/// Parse the pressed field: a case-sensitive literal match.
pub fn parse_bool(s: &[u8]) -> (r: Result<bool, ()>)
    ensures
        match r {
            Ok(b) => s@ == bool_bytes(b),
            Err(()) => s@ != bool_bytes(true) && s@ != bool_bytes(false),
        },
{
    if s.len() == 4 && s[0] == 116 && s[1] == 114 && s[2] == 117 && s[3] == 101 {
        proof {
            assert(s@ =~= bool_bytes(true));
        }
        Ok(true)
    } else if s.len() == 5 && s[0] == 102 && s[1] == 97 && s[2] == 108 && s[3] == 115 && s[4]
        == 101 {
        proof {
            assert(s@ =~= bool_bytes(false));
        }
        Ok(false)
    } else {
        proof {
            if s@ == bool_bytes(true) {
                assert(s@.len() == 4 && s@[0] == 116 && s@[1] == 114 && s@[2] == 117 && s@[3]
                    == 101);
            }
            if s@ == bool_bytes(false) {
                assert(s@.len() == 5 && s@[0] == 102 && s@[1] == 97 && s@[2] == 108 && s@[3] == 115
                    && s@[4] == 101);
            }
        }
        Err(())
    }
}

/// What `encode` sends for a sample: both coordinates as canonical decimal
/// tokens, then the pressed literal, comma separated. The sender's identity
/// is absent on purpose: the relay prefixes it.
pub open spec fn spec_encode(e: DrawEvent) -> Seq<u8> {
    spec_render_coord(e.position.x.millis as int) + seq![44u8] + spec_render_coord(
        e.position.y.millis as int,
    ) + seq![44u8] + bool_bytes(e.pressed)
}

/// Encode an outbound sample as `"x,y,pressed"`. Coordinates go out as the
/// event holds them; the caller recenters beforehand when the wire form is
/// canvas-center relative.
pub fn encode(e: &DrawEvent) -> (r: Vec<u8>)
    requires
        e.position.x.millis > i64::MIN,
        e.position.y.millis > i64::MIN,
    ensures
        r@ == spec_encode(*e),
{
    let mut out = render_coord(e.position.x.millis);
    out.push(44);
    let mut ty = render_coord(e.position.y.millis);
    out.append(&mut ty);
    out.push(44);
    if e.pressed {
        out.push(116);
        out.push(114);
        out.push(117);
        out.push(101);
    } else {
        out.push(102);
        out.push(97);
        out.push(108);
        out.push(115);
        out.push(101);
    }
    proof {
        assert(out@ =~= spec_encode(*e));
    }
    out
}

/// What `decode` returns for any inbound text, step by step: split on the
/// first `": "`, read the label's digits as the sender identity, split the
/// body on commas into exactly three fields, parse them, and recenter the
/// point onto the canvas.
pub open spec fn spec_decode(s: Seq<u8>, dims: CanvasDims) -> Result<
    (u32, DrawEvent),
    ProtocolError,
> {
    let sep = find_sep(s);
    if sep == -1 {
        Err(ProtocolError::Malformed)
    } else {
        let ds = digit_seq(s.take(sep));
        if ds.len() == 0 || digits_val(ds) > 0xFFFF_FFFF {
            Err(ProtocolError::BadUserId)
        } else {
            let body = s.skip(sep + 2);
            let c1 = find_from(body, 44, 0);
            let c2 = find_from(body, 44, c1 + 1);
            if c1 == -1 || c2 == -1 || find_from(body, 44, c2 + 1) != -1 {
                Err(ProtocolError::Malformed)
            } else {
                let f0 = body.take(c1);
                let f1 = body.subrange(c1 + 1, c2);
                let f2 = body.skip(c2 + 1);
                if !coord_field_ok(f0) || !coord_field_ok(f1) {
                    Err(ProtocolError::BadField)
                } else if f2 != bool_bytes(true) && f2 != bool_bytes(false) {
                    Err(ProtocolError::BadField)
                } else {
                    Ok(
                        (
                            digits_val(ds) as u32,
                            DrawEvent {
                                position: crate::event::spec_recenter_in(
                                    Point {
                                        x: Coord { millis: coord_val(f0) as i64 },
                                        y: Coord { millis: coord_val(f1) as i64 },
                                    },
                                    dims,
                                ),
                                pressed: f2 == bool_bytes(true),
                            },
                        ),
                    )
                }
            }
        }
    }
}

/// Decode one inbound text message. Every outcome is the one `spec_decode`
/// names; a decoded point is always within the surface bound.
pub fn decode(raw: &[u8], dims: CanvasDims) -> (r: Result<(u32, DrawEvent), ProtocolError>)
    ensures
        r == spec_decode(raw@, dims),
        r matches Ok(v) ==> v.1.wf(),
{
    let sep = match find_sep_bytes(raw) {
        None => {
            return Err(ProtocolError::Malformed);
        },
        Some(k) => k,
    };
    let header = vstd::slice::slice_subrange(raw, 0, sep);
    proof {
        assert(header@ =~= raw@.take(sep as int));
    }
    let ds = digit_bytes(header);
    proof {
        lemma_digit_seq_all_digits(header@);
    }
    let id64 = match parse_digits(ds.as_slice(), 0xFFFF_FFFF) {
        Err(()) => {
            return Err(ProtocolError::BadUserId);
        },
        Ok(v) => v,
    };
    let n = raw.len();
    proof {
        assert(sep as int + 2 <= raw@.len());
    }
    let body = vstd::slice::slice_subrange(raw, sep + 2, n);
    proof {
        assert(body@ =~= raw@.skip(sep as int + 2));
    }
    let c1 = match find_byte(body, 44, 0) {
        None => {
            return Err(ProtocolError::Malformed);
        },
        Some(k) => k,
    };
    proof {
        lemma_find_from(body@, 44, 0);
    }
    let c2 = match find_byte(body, 44, c1 + 1) {
        None => {
            return Err(ProtocolError::Malformed);
        },
        Some(k) => k,
    };
    proof {
        lemma_find_from(body@, 44, c1 as int + 1);
    }
    match find_byte(body, 44, c2 + 1) {
        Some(_) => {
            return Err(ProtocolError::Malformed);
        },
        None => {},
    };
    let f0 = vstd::slice::slice_subrange(body, 0, c1);
    let f1 = vstd::slice::slice_subrange(body, c1 + 1, c2);
    let f2 = vstd::slice::slice_subrange(body, c2 + 1, body.len());
    proof {
        assert(f0@ =~= body@.take(c1 as int));
        assert(f1@ =~= body@.subrange(c1 as int + 1, c2 as int));
        assert(f2@ =~= body@.skip(c2 as int + 1));
    }
    let x_wire = match parse_coord(f0) {
        Err(()) => {
            return Err(ProtocolError::BadField);
        },
        Ok(v) => v,
    };
    let y_wire = match parse_coord(f1) {
        Err(()) => {
            return Err(ProtocolError::BadField);
        },
        Ok(v) => v,
    };
    let pressed = match parse_bool(f2) {
        Err(()) => {
            return Err(ProtocolError::BadField);
        },
        Ok(b) => b,
    };
    let x = x_wire + dims.half_width_millis();
    let y = y_wire + dims.half_height_millis();
    Ok(
        (
            id64 as u32,
            DrawEvent {
                position: Point { x: Coord { millis: x }, y: Coord { millis: y } },
                pressed,
            },
        ),
    )
}

/// Round trip across the relay: take any sender label whose digits read
/// `id` and that holds no `": "` of its own, any sample whose coordinates
/// ride the wire, and any canvas; then the relayed message — label, `": "`,
/// and the encoded sample — decodes to exactly that identity, exactly that
/// pressed flag, and exactly the sample's point recentered onto the canvas.
#[verifier::rlimit(60)]
pub proof fn lemma_encode_decode_round_trip(
    header: Seq<u8>,
    id: u32,
    e: DrawEvent,
    dims: CanvasDims,
)
    requires
        forall|j: int| 0 <= j && j + 2 <= header.len() ==> !(#[trigger] header[j] == 58 && header[
            j + 1
        ] == 32),
        digit_seq(header).len() >= 1,
        digits_val(digit_seq(header)) == id,
        e.position.wire_ok(),
    ensures
        spec_decode(header + seq![58u8, 32u8] + spec_encode(e), dims) == Ok::<
            (u32, DrawEvent),
            ProtocolError,
        >(
            (
                id,
                DrawEvent {
                    position: crate::event::spec_recenter_in(e.position, dims),
                    pressed: e.pressed,
                },
            ),
        ),
{
    let xm = e.position.x.millis as int;
    let ym = e.position.y.millis as int;
    let t0 = spec_render_coord(xm);
    let t1 = spec_render_coord(ym);
    let tb = bool_bytes(e.pressed);
    let enc = spec_encode(e);
    let s = header + seq![58u8, 32u8] + enc;
    let h = header.len() as int;

    // The first ": " stands exactly where the relay put it.
    assert(sep_at(s, h));
    assert forall|j: int| 0 <= j < h implies !sep_at(s, j) by {
        if j < h - 1 {
            assert(s[j] == header[j] && s[j + 1] == header[j + 1]);
        } else {
            assert(s[j + 1] == 58);
        }
    }
    lemma_find_sep_at(s, 0, h);

    // The label comes back whole, so the identity digits do too.
    assert(s.take(h) =~= header);

    // The body is exactly the encoded sample.
    let body = s.skip(h + 2);
    assert(body =~= enc);

    // The commas of the body are exactly the two the encoder wrote.
    lemma_render_coord_no_comma(xm);
    lemma_render_coord_no_comma(ym);
    let c1 = t0.len() as int;
    let c2 = t0.len() + 1 + t1.len();
    assert(body[c1] == 44);
    assert(body[c2 as int] == 44);
    assert forall|j: int| 0 <= j < c1 implies body[j] != 44 by {
        assert(body[j] == t0[j]);
    }
    lemma_find_from_at(body, 44, 0, c1);
    assert forall|j: int| c1 + 1 <= j < c2 implies body[j] != 44 by {
        assert(body[j] == t1[j - c1 - 1]);
    }
    lemma_find_from_at(body, 44, c1 + 1, c2 as int);
    lemma_find_from(body, 44, c2 as int + 1);
    if find_from(body, 44, c2 as int + 1) != -1 {
        let k = find_from(body, 44, c2 as int + 1);
        assert(body[k] == tb[k - c2 - 1]);
        assert(false);
    }

    // Each field is the token the encoder rendered, and reads back.
    assert(body.take(c1) =~= t0);
    assert(body.subrange(c1 + 1, c2 as int) =~= t1);
    assert(body.skip(c2 as int + 1) =~= tb);
    lemma_render_coord_reads_back(xm);
    lemma_render_coord_reads_back(ym);
    if !e.pressed {
        assert(bool_bytes(false).len() != bool_bytes(true).len());
    }
}

/// Decoding has no hidden state: the outcome is a pure function of the
/// message text and the canvas dimensions, so decoding the same message
/// twice gives identical results.
pub proof fn lemma_decode_deterministic(
    s: Seq<u8>,
    dims: CanvasDims,
    r1: Result<(u32, DrawEvent), ProtocolError>,
    r2: Result<(u32, DrawEvent), ProtocolError>,
)
    requires
        r1 == spec_decode(s, dims),
        r2 == spec_decode(s, dims),
    ensures
        r1 == r2,
{
}

} // verus!
