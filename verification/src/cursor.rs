//! The opaque pagination cursor and its codec.
//!
//! A cursor names a position in a ranked listing: the ranking key and
//! id of the row at a page boundary, together with the sort it was
//! taken under.  The token is a fixed-layout ASCII byte string:
//! one sort tag byte, one distinguished-flag byte, then three signed
//! integer fields, each a sign byte followed by exactly twenty
//! decimal digits.  Encoding is canonical, and decoding accepts
//! exactly the canonical encodings, so a cursor round-trips and a
//! tampered token is rejected rather than silently reinterpreted.

use vstd::prelude::*;
use crate::model::CommentSortType;

verus! {

/// The ranking position a cursor denotes: the boundary row's
/// distinguished flag, its two ranking key values under the sort the
/// cursor was taken under, and its id as the final tie-break.
#[derive(Clone, Copy, Debug, PartialEq, Eq, Structural)]
pub struct CursorKey {
    pub sort: CommentSortType,
    pub distinguished: bool,
    pub k1: i64,
    pub k2: i64,
    pub id: i32,
}

/// An opaque pagination token: ASCII bytes handed to the caller and
/// handed back verbatim to resume a listing.
#[derive(Debug, Clone)]
pub struct PaginationCursor(pub Vec<u8>);

/// ASCII decimal digit test.
pub open spec fn is_digit_byte(b: u8) -> bool {
    48 <= b <= 57
}

/// Ten to the `w`-th power.
pub open spec fn pow10(w: nat) -> nat
    decreases w,
{
    if w == 0 {
        1
    } else {
        10 * pow10((w - 1) as nat)
    }
}

/// The `w` least-significant decimal digits of `n`, as ASCII bytes,
/// most significant first.
pub open spec fn fixed_digits(n: nat, w: nat) -> Seq<u8>
    decreases w,
{
    if w == 0 {
        Seq::empty()
    } else {
        fixed_digits(n / 10, (w - 1) as nat).push((48 + n % 10) as u8)
    }
}

/// The number an ASCII digit string denotes.
pub open spec fn digits_val(s: Seq<u8>) -> nat
    decreases s.len(),
{
    if s.len() == 0 {
        0
    } else {
        digits_val(s.drop_last()) * 10 + (s.last() - 48) as nat
    }
}

/// Magnitude of a signed value, as an unbounded natural.
pub open spec fn mag(v: i64) -> nat {
    if v >= 0 {
        v as nat
    } else {
        (-(v as int)) as nat
    }
}

/// Sign byte of an integer field: `P` for non-negative, `N` for
/// negative.
pub open spec fn sign_byte(v: i64) -> u8 {
    if v >= 0 {
        80
    } else {
        78
    }
}

/// Canonical bytes of one signed integer field.
pub open spec fn int_field_bytes(v: i64) -> Seq<u8> {
    seq![sign_byte(v)] + fixed_digits(mag(v), 20)
}

/// Tag byte of a sort strategy.
pub open spec fn sort_tag(s: CommentSortType) -> u8 {
    match s {
        CommentSortType::Hot => 72,
        CommentSortType::Controversial => 67,
        CommentSortType::New => 78,
        CommentSortType::Old => 79,
        CommentSortType::Top => 84,
    }
}

/// Canonical token bytes of a cursor key.
pub open spec fn spec_encode(k: CursorKey) -> Seq<u8> {
    seq![sort_tag(k.sort), if k.distinguished { 49u8 } else { 48u8 }] + int_field_bytes(k.k1)
        + int_field_bytes(k.k2) + int_field_bytes(k.id as i64)
}

/// A digit string has the advertised width and holds only digits.
proof fn lemma_fixed_digits_shape(n: nat, w: nat)
    ensures
        fixed_digits(n, w).len() == w,
        forall|i: int| 0 <= i < w ==> is_digit_byte(#[trigger] fixed_digits(n, w)[i]),
    decreases w,
{
    if w > 0 {
        lemma_fixed_digits_shape(n / 10, (w - 1) as nat);
        let s = fixed_digits(n, w);
        let p = fixed_digits(n / 10, (w - 1) as nat);
        assert forall|i: int| 0 <= i < w implies is_digit_byte(s[i]) by {
            if i < w - 1 {
                assert(s[i] == p[i]);
            }
        }
    }
}

/// Reading back the digit string of a small enough number recovers
/// the number.
proof fn lemma_fixed_digits_val(n: nat, w: nat)
    requires
        n < pow10(w),
    ensures
        digits_val(fixed_digits(n, w)) == n,
    decreases w,
{
    if w == 0 {
    } else {
        assert(n / 10 < pow10((w - 1) as nat)) by (nonlinear_arith)
            requires
                n < 10 * pow10((w - 1) as nat),
        ;
        lemma_fixed_digits_val(n / 10, (w - 1) as nat);
        lemma_fixed_digits_shape(n / 10, (w - 1) as nat);
        let s = fixed_digits(n, w);
        let p = fixed_digits(n / 10, (w - 1) as nat);
        assert(s.drop_last() =~= p);
    }
}

/// Every `u64` fits in twenty decimal digits.
proof fn lemma_u64_fits_20_digits(n: u64)
    ensures
        (n as nat) < pow10(20),
{
    reveal_with_fuel(pow10, 21);
    assert(pow10(20) == 100000000000000000000nat);
}

/// Digit-by-digit emission of the `w` least-significant decimal
/// digits of `n`, most significant first.
fn fixed_bytes(n: u64, w: u8) -> (v: Vec<u8>)
    ensures
        v@ == fixed_digits(n as nat, w as nat),
    decreases w,
{
    if w == 0 {
        Vec::new()
    } else {
        let mut v = fixed_bytes(n / 10, w - 1);
        v.push(48 + (n % 10) as u8);
        v
    }
}

/// Append the canonical bytes of one signed integer field.
fn push_int_field(out: &mut Vec<u8>, v: i64)
    ensures
        final(out)@ == old(out)@ + int_field_bytes(v),
{
    let m: u64 = if v >= 0 {
        out.push(80);
        v as u64
    } else {
        out.push(78);
        (-(v as i128)) as u64
    };
    let mut digits = fixed_bytes(m, 20);
    out.append(&mut digits);
    assert(final(out)@ =~= old(out)@ + int_field_bytes(v));
}

/// Encode a cursor key as its canonical opaque token.
pub fn encode_cursor(k: CursorKey) -> (r: PaginationCursor)
    ensures
        r.0@ == spec_encode(k),
{
    let mut out: Vec<u8> = Vec::new();
    let tag: u8 = match k.sort {
        CommentSortType::Hot => 72,
        CommentSortType::Controversial => 67,
        CommentSortType::New => 78,
        CommentSortType::Old => 79,
        CommentSortType::Top => 84,
    };
    out.push(tag);
    out.push(if k.distinguished { 49 } else { 48 });
    push_int_field(&mut out, k.k1);
    push_int_field(&mut out, k.k2);
    push_int_field(&mut out, k.id as i64);
    assert(out@ =~= spec_encode(k));
    PaginationCursor(out)
}

/// Parse the twenty digits at `start`, bounding the magnitude by
/// `max`.
fn parse_digits(v: &Vec<u8>, start: usize, max: u64) -> (r: Option<u64>)
    requires
        start + 20 <= v@.len(),
        10 <= max,
    ensures
        match r {
            Some(m) => {
                &&& forall|i: int| start <= i < start + 20 ==> is_digit_byte(#[trigger] v@[i])
                &&& m as nat == digits_val(v@.subrange(start as int, start as int + 20))
                &&& m <= max
            },
            None => forall|m: u64|
                m <= max ==> v@.subrange(start as int, start as int + 20) != fixed_digits(
                    m as nat,
                    20,
                ),
        },
{
    let ghost whole = v@.subrange(start as int, start as int + 20);
    let n = v.len();
    let mut acc: u64 = 0;
    let mut i: usize = 0;
    while i < 20
        invariant
            0 <= i <= 20,
            n == v@.len(),
            start + 20 <= v@.len(),
            10 <= max,
            whole == v@.subrange(start as int, start as int + 20),
            forall|j: int| start <= j < start + i ==> is_digit_byte(#[trigger] v@[j]),
            acc as nat == digits_val(whole.subrange(0, i as int)),
            acc <= max,
        decreases 20 - i,
    {
        let b = v[start + i];
        if b < 48 || b > 57 {
            proof {
                bad_digit_excludes_all(v@, start as int, start as int + i, max);
            }
            return None;
        }
        let d = b - 48;
        if acc > (max - d as u64) / 10 {
            proof {
                let pre = whole.subrange(0, i as int + 1);
                assert(pre.drop_last() =~= whole.subrange(0, i as int));
                assert(digits_val(pre) == acc * 10 + d);
                overflow_excludes_all(v@, start as int, i as int, max, digits_val(pre));
            }
            return None;
        }
        proof {
            let pre = whole.subrange(0, i as int + 1);
            assert(pre.drop_last() =~= whole.subrange(0, i as int));
            assert(pre.last() == v@[start + i]);
        }
        acc = acc * 10 + d as u64;
        i += 1;
    }
    proof {
        assert(whole.subrange(0, 20) =~= whole);
    }
    Some(acc)
}

/// A non-digit byte inside the field rules out every canonical digit
/// string.
proof fn bad_digit_excludes_all(s: Seq<u8>, start: int, bad: int, max: u64)
    requires
        0 <= start <= bad < start + 20,
        start + 20 <= s.len(),
        !is_digit_byte(s[bad]),
    ensures
        forall|m: u64| s.subrange(start, start + 20) != fixed_digits(m as nat, 20),
{
    assert forall|m: u64| s.subrange(start, start + 20) != fixed_digits(m as nat, 20) by {
        lemma_fixed_digits_shape(m as nat, 20);
        if s.subrange(start, start + 20) == fixed_digits(m as nat, 20) {
            assert(is_digit_byte(s.subrange(start, start + 20)[bad - start]));
        }
    }
}

/// A digit prefix already worth more than `max` rules out every
/// in-bound value.
proof fn overflow_excludes_all(s: Seq<u8>, start: int, i: int, max: u64, prefix_val: nat)
    requires
        0 <= start,
        0 <= i < 20,
        start + 20 <= s.len(),
        prefix_val > max,
        prefix_val == digits_val(s.subrange(start, start + 20).subrange(0, i + 1)),
        forall|j: int| start <= j < start + i + 1 ==> is_digit_byte(#[trigger] s[j]),
    ensures
        forall|m: u64|
            m <= max ==> s.subrange(start, start + 20) != fixed_digits(m as nat, 20),
{
    let whole = s.subrange(start, start + 20);
    assert forall|m: u64| m <= max implies whole != fixed_digits(m as nat, 20) by {
        if whole == fixed_digits(m as nat, 20) {
            lemma_fixed_digits_shape(m as nat, 20);
            lemma_u64_fits_20_digits(m);
            lemma_fixed_digits_val(m as nat, 20);
            lemma_digits_prefix_le(whole, i + 1);
            assert(digits_val(whole) == m as nat);
            assert(prefix_val <= m as nat);
        }
    }
}

/// The value of a digit-string prefix never exceeds the value of the
/// whole string.
proof fn lemma_digits_prefix_le(s: Seq<u8>, p: int)
    requires
        0 <= p <= s.len(),
        forall|i: int| 0 <= i < s.len() ==> is_digit_byte(#[trigger] s[i]),
    ensures
        digits_val(s.subrange(0, p)) <= digits_val(s),
    decreases s.len() - p,
{
    if p == s.len() {
        assert(s.subrange(0, p) =~= s);
    } else {
        lemma_digits_prefix_le(s, p + 1);
        let a = s.subrange(0, p);
        let b = s.subrange(0, p + 1);
        assert(b.drop_last() =~= a);
        assert(digits_val(b) == digits_val(a) * 10 + (b.last() - 48) as nat);
        assert(digits_val(a) <= digits_val(a) * 10) by (nonlinear_arith);
    }
}

/// Parse one signed integer field at `start`: a sign byte and twenty
/// digits.  Succeeds exactly on the canonical encodings.
fn parse_int_field(v: &Vec<u8>, start: usize) -> (r: Option<i64>)
    requires
        start + 21 <= v@.len(),
    ensures
        match r {
            Some(x) => v@.subrange(start as int, start as int + 21) == int_field_bytes(x),
            None => forall|x: i64|
                v@.subrange(start as int, start as int + 21) != #[trigger] int_field_bytes(x),
        },
{
    let ghost fld = v@.subrange(start as int, start as int + 21);
    let n = v.len();
    proof {
        assert forall|x: i64| #[trigger] int_field_bytes(x).len() == 21 by {
            lemma_fixed_digits_shape(mag(x), 20);
        }
        assert(fld.subrange(1, 21) =~= v@.subrange(start as int + 1, start as int + 21));
    }
    let sign = v[start];
    if sign != 80 && sign != 78 {
        proof {
            assert forall|x: i64| fld != #[trigger] int_field_bytes(x) by {
                if fld == int_field_bytes(x) {
                    assert(fld[0] == sign_byte(x));
                }
            }
        }
        return None;
    }
    let positive = sign == 80;
    let max: u64 = if positive {
        9223372036854775807
    } else {
        9223372036854775808
    };
    let m = match parse_digits(v, start + 1, max) {
        Some(m) => m,
        None => {
            proof {
                assert forall|x: i64| fld != #[trigger] int_field_bytes(x) by {
                    if fld == int_field_bytes(x) {
                        lemma_mag_bounds(x);
                        assert(fld[0] == sign_byte(x));
                        assert(sign_byte(x) == sign);
                        let m0: u64 = mag(x) as u64;
                        assert(fld.subrange(1, 21) =~= fixed_digits(m0 as nat, 20));
                        assert(m0 <= max);
                    }
                }
            }
            return None;
        },
    };
    if !positive && m == 0 {
        proof {
            assert forall|x: i64| fld != #[trigger] int_field_bytes(x) by {
                if fld == int_field_bytes(x) {
                    assert(fld[0] == sign_byte(x));
                    assert(x < 0);
                    lemma_u64_fits_20_digits(mag(x) as u64);
                    lemma_fixed_digits_val(mag(x), 20);
                    assert(fld.subrange(1, 21) =~= fixed_digits(mag(x), 20));
                    assert(digits_val(fld.subrange(1, 21)) == mag(x));
                    assert(mag(x) == m as nat);
                }
            }
        }
        return None;
    }
    let x: i64 = if positive {
        m as i64
    } else {
        (-(m as i128)) as i64
    };
    proof {
        lemma_u64_fits_20_digits(m);
        lemma_fixed_digits_val(m as nat, 20);
        assert(mag(x) == m as nat);
        assert(sign_byte(x) == sign);
        lemma_digits_eq_of_val(fld.subrange(1, 21), m);
        assert(fld =~= int_field_bytes(x));
    }
    Some(x)
}

/// Magnitudes of signed 64-bit values fit the field bounds.
proof fn lemma_mag_bounds(x: i64)
    ensures
        x >= 0 ==> mag(x) <= 9223372036854775807,
        x < 0 ==> 1 <= mag(x) <= 9223372036854775808,
        mag(x) == mag(x) as u64 as nat,
{
}

/// A twenty-digit string whose value is `m` is the canonical digit
/// string of `m`.
proof fn lemma_digits_eq_of_val(s: Seq<u8>, m: u64)
    requires
        s.len() == 20,
        forall|i: int| 0 <= i < s.len() ==> is_digit_byte(#[trigger] s[i]),
        digits_val(s) == m as nat,
    ensures
        s == fixed_digits(m as nat, 20),
{
    lemma_u64_fits_20_digits(m);
    lemma_digits_unique(s, m as nat, 20);
}

/// Two digit strings of the same width and value are equal.
proof fn lemma_digits_unique(s: Seq<u8>, n: nat, w: nat)
    requires
        s.len() == w,
        forall|i: int| 0 <= i < s.len() ==> is_digit_byte(#[trigger] s[i]),
        digits_val(s) == n,
        n < pow10(w),
    ensures
        s == fixed_digits(n, w),
    decreases w,
{
    if w == 0 {
        assert(s =~= fixed_digits(n, w));
    } else {
        let p = s.drop_last();
        let d = (s.last() - 48) as nat;
        assert(n == digits_val(p) * 10 + d);
        assert(n % 10 == d && n / 10 == digits_val(p)) by (nonlinear_arith)
            requires
                n == digits_val(p) * 10 + d,
                0 <= d < 10,
        ;
        assert(digits_val(p) < pow10((w - 1) as nat)) by (nonlinear_arith)
            requires
                digits_val(p) * 10 + d < 10 * pow10((w - 1) as nat),
                0 <= d < 10,
        ;
        lemma_digits_unique(p, (n / 10) as nat, (w - 1) as nat);
        assert(s =~= fixed_digits(n, w));
    }
}

/// Decode an opaque token.  Succeeds exactly on the canonical
/// encoding of some cursor key, which it returns; every other byte
/// string is rejected.
pub fn decode_cursor(c: &PaginationCursor) -> (r: Option<CursorKey>)
    ensures
        match r {
            Some(k) => c.0@ == spec_encode(k),
            None => forall|k: CursorKey| c.0@ != #[trigger] spec_encode(k),
        },
{
    let v = &c.0;
    proof {
        assert forall|k: CursorKey| #[trigger] spec_encode(k).len() == 65 by {
            lemma_fixed_digits_shape(mag(k.k1), 20);
            lemma_fixed_digits_shape(mag(k.k2), 20);
            lemma_fixed_digits_shape(mag(k.id as i64), 20);
        }
    }
    if v.len() != 65 {
        return None;
    }
    let sort = match v[0] {
        72 => CommentSortType::Hot,
        67 => CommentSortType::Controversial,
        78 => CommentSortType::New,
        79 => CommentSortType::Old,
        84 => CommentSortType::Top,
        _ => {
            proof {
                assert forall|k: CursorKey| v@ != #[trigger] spec_encode(k) by {
                    if v@ == spec_encode(k) {
                        assert(v@[0] == sort_tag(k.sort));
                    }
                }
            }
            return None;
        },
    };
    let distinguished = match v[1] {
        49 => true,
        48 => false,
        _ => {
            proof {
                assert forall|k: CursorKey| v@ != #[trigger] spec_encode(k) by {
                    if v@ == spec_encode(k) {
                        assert(v@[1] == if k.distinguished { 49u8 } else { 48u8 });
                    }
                }
            }
            return None;
        },
    };
    proof {
        assert forall|k: CursorKey|
            v@ == spec_encode(k) implies {
            &&& v@.subrange(2, 23) == int_field_bytes(k.k1)
            &&& v@.subrange(23, 44) == int_field_bytes(k.k2)
            &&& v@.subrange(44, 65) == int_field_bytes(k.id as i64)
        } by {
            lemma_fixed_digits_shape(mag(k.k1), 20);
            lemma_fixed_digits_shape(mag(k.k2), 20);
            lemma_fixed_digits_shape(mag(k.id as i64), 20);
            assert(v@.subrange(2, 23) =~= int_field_bytes(k.k1));
            assert(v@.subrange(23, 44) =~= int_field_bytes(k.k2));
            assert(v@.subrange(44, 65) =~= int_field_bytes(k.id as i64));
        }
    }
    let k1 = match parse_int_field(v, 2) {
        Some(x) => x,
        None => {
            return None;
        },
    };
    let k2 = match parse_int_field(v, 23) {
        Some(x) => x,
        None => {
            return None;
        },
    };
    let id64 = match parse_int_field(v, 44) {
        Some(x) => x,
        None => {
            return None;
        },
    };
    if id64 < -2147483648i64 || id64 > 2147483647i64 {
        proof {
            assert forall|k: CursorKey| v@ != #[trigger] spec_encode(k) by {
                if v@ == spec_encode(k) {
                    lemma_int_field_inj(k.id as i64, id64);
                }
            }
        }
        return None;
    }
    let k = CursorKey { sort, distinguished, k1, k2, id: id64 as i32 };
    proof {
        lemma_fixed_digits_shape(mag(k1), 20);
        lemma_fixed_digits_shape(mag(k2), 20);
        lemma_fixed_digits_shape(mag(id64), 20);
        assert(v@ =~= spec_encode(k));
    }
    Some(k)
}

/// Cursor keys with equal tokens are equal: the codec is injective.
pub proof fn lemma_encode_injective(a: CursorKey, b: CursorKey)
    requires
        spec_encode(a) == spec_encode(b),
    ensures
        a == b,
{
    lemma_fixed_digits_shape(mag(a.k1), 20);
    lemma_fixed_digits_shape(mag(a.k2), 20);
    lemma_fixed_digits_shape(mag(a.id as i64), 20);
    lemma_fixed_digits_shape(mag(b.k1), 20);
    lemma_fixed_digits_shape(mag(b.k2), 20);
    lemma_fixed_digits_shape(mag(b.id as i64), 20);
    let ea = spec_encode(a);
    let eb = spec_encode(b);
    assert(ea[0] == sort_tag(a.sort) && eb[0] == sort_tag(b.sort));
    assert(a.sort == b.sort);
    assert(ea[1] == if a.distinguished { 49u8 } else { 48u8 });
    assert(eb[1] == if b.distinguished { 49u8 } else { 48u8 });
    assert(ea.subrange(2, 23) =~= int_field_bytes(a.k1));
    assert(eb.subrange(2, 23) =~= int_field_bytes(b.k1));
    lemma_int_field_inj(a.k1, b.k1);
    assert(ea.subrange(23, 44) =~= int_field_bytes(a.k2));
    assert(eb.subrange(23, 44) =~= int_field_bytes(b.k2));
    lemma_int_field_inj(a.k2, b.k2);
    assert(ea.subrange(44, 65) =~= int_field_bytes(a.id as i64));
    assert(eb.subrange(44, 65) =~= int_field_bytes(b.id as i64));
    lemma_int_field_inj(a.id as i64, b.id as i64);
}

/// Integer fields with equal canonical bytes are equal.
proof fn lemma_int_field_inj(a: i64, b: i64)
    requires
        int_field_bytes(a) == int_field_bytes(b),
    ensures
        a == b,
{
    lemma_fixed_digits_shape(mag(a), 20);
    lemma_fixed_digits_shape(mag(b), 20);
    assert(int_field_bytes(a)[0] == sign_byte(a));
    assert(int_field_bytes(b)[0] == sign_byte(b));
    assert(int_field_bytes(a).subrange(1, 21) =~= fixed_digits(mag(a), 20));
    assert(int_field_bytes(b).subrange(1, 21) =~= fixed_digits(mag(b), 20));
    lemma_u64_fits_20_digits(mag(a) as u64);
    lemma_u64_fits_20_digits(mag(b) as u64);
    lemma_mag_bounds(a);
    lemma_mag_bounds(b);
    lemma_fixed_digits_val(mag(a), 20);
    lemma_fixed_digits_val(mag(b), 20);
}

} // verus!
