//! Numeric literals of the statement grammar.
//!
//! Integer arguments are parsed into `i32` and rendered back; the round trip
//! is proved exact. Fractional arguments are kept as validated decimal
//! literals (`Num`): the codec never computes with them, it only moves them
//! between statements and records, so the literal itself is the value. This
//! keeps rendering lossless and within the precision of the source text.

use vstd::prelude::*;

use crate::ascii::{is_digit, DIG0, DOT, MINUS};
use crate::ascii::byte_is_digit;

verus! {

/// A nonempty run of decimal digits.
pub open spec fn is_digits(s: Seq<u8>) -> bool {
    s.len() > 0 && forall|i: int| 0 <= i < s.len() ==> is_digit(#[trigger] s[i])
}

/// The value of a digit run, most significant digit first.
pub open spec fn digits_val(s: Seq<u8>) -> int
    decreases s.len(),
{
    if s.len() == 0 {
        0
    } else {
        digits_val(s.drop_last()) * 10 + (s.last() - DIG0)
    }
}

/// The integer denoted by `s`: an optional minus sign and then digits.
pub open spec fn int_lit_val(s: Seq<u8>) -> Option<int> {
    if is_digits(s) {
        Some(digits_val(s))
    } else if s.len() > 1 && s[0] == MINUS && is_digits(s.drop_first()) {
        Some(-digits_val(s.drop_first()))
    } else {
        None
    }
}

/// The `i32` an argument token denotes, if it is an integer literal in range.
pub open spec fn parse_i32_spec(s: Seq<u8>) -> Option<i32> {
    match int_lit_val(s) {
        Some(v) => if i32::MIN <= v <= i32::MAX {
            Some(v as i32)
        } else {
            None
        },
        None => None,
    }
}

/// The canonical digit run of a nonnegative value: no leading zeros.
pub open spec fn render_nat(v: int) -> Seq<u8>
    recommends
        v >= 0,
    decreases v,
{
    if v < 10 {
        seq![(DIG0 + if v >= 0 { v } else { 0 }) as u8]
    } else {
        render_nat(v / 10).push((DIG0 + v % 10) as u8)
    }
}

/// The canonical rendering of an integer.
pub open spec fn render_i32(v: int) -> Seq<u8> {
    if v >= 0 {
        render_nat(v)
    } else {
        seq![MINUS].add(render_nat(-v))
    }
}

/// The value of a digit run is nonnegative.
pub proof fn lemma_digits_val_nonneg(s: Seq<u8>)
    requires
        forall|i: int| 0 <= i < s.len() ==> is_digit(#[trigger] s[i]),
    ensures
        digits_val(s) >= 0,
    decreases s.len(),
{
    if s.len() > 0 {
        lemma_digits_val_nonneg(s.drop_last());
    }
}

/// Extending a digit run on the right cannot decrease its value.
pub proof fn lemma_digits_val_prefix_le(s: Seq<u8>, k: int)
    requires
        forall|i: int| 0 <= i < s.len() ==> is_digit(#[trigger] s[i]),
        0 <= k <= s.len(),
    ensures
        digits_val(s.subrange(0, k)) <= digits_val(s),
    decreases s.len() - k,
{
    if k < s.len() {
        lemma_digits_val_prefix_le(s, k + 1);
        let p = s.subrange(0, k + 1);
        assert(p.drop_last() =~= s.subrange(0, k));
        lemma_digits_val_nonneg(s.subrange(0, k));
    } else {
        assert(s.subrange(0, k) =~= s);
    }
}

/// The canonical digit run parses back to its value.
pub proof fn lemma_render_nat_val(v: int)
    requires
        v >= 0,
    ensures
        is_digits(render_nat(v)),
        digits_val(render_nat(v)) == v,
        render_nat(v)[0] != MINUS,
    decreases v,
{
    if v < 10 {
        assert(digits_val(render_nat(v).drop_last()) == 0) by {
            assert(render_nat(v).drop_last() =~= Seq::<u8>::empty());
        }
    } else {
        lemma_render_nat_val(v / 10);
        let r = render_nat(v);
        assert(r.drop_last() =~= render_nat(v / 10));
        assert(digits_val(r) == (v / 10) * 10 + v % 10);
        assert((v / 10) * 10 + v % 10 == v) by (nonlinear_arith);
    }
}

/// Round trip: the canonical rendering of any `i32` parses back to it.
pub proof fn lemma_i32_round_trip(v: i32)
    ensures
        parse_i32_spec(render_i32(v as int)) == Some(v),
{
    if v >= 0 {
        lemma_render_nat_val(v as int);
    } else {
        lemma_render_nat_val(-(v as int));
        let s = render_i32(v as int);
        assert(s.drop_first() =~= render_nat(-(v as int)));
        assert(!is_digits(s)) by {
            assert(s[0] == MINUS && !is_digit(MINUS));
        }
    }
}

/// Parse an integer argument token. Returns `None` exactly when the token is
/// not an optional sign followed by digits, or denotes a value outside the
/// `i32` range.
pub fn parse_i32(s: &[u8]) -> (r: Option<i32>)
    ensures
        r == parse_i32_spec(s@),
{
    let ghost gs = s@;
    let neg = s.len() > 0 && s[0] == MINUS;
    let start: usize = if neg {
        1
    } else {
        0
    };
    let b: &[u8] = vstd::slice::slice_subrange(s, start, s.len());
    proof {
        if neg {
            assert(b@ =~= gs.drop_first());
        } else {
            assert(b@ =~= gs);
        }
        assert(!is_digit(MINUS));
    }
    if b.len() == 0 {
        assert(parse_i32_spec(gs) is None);
        return None;
    }
    let mut acc: i64 = 0;
    let mut i: usize = 0;
    while i < b.len()
        invariant
            0 <= i <= b@.len(),
            forall|j: int| 0 <= j < i ==> is_digit(#[trigger] b@[j]),
            acc == digits_val(b@.subrange(0, i as int)),
            0 <= acc <= 0x8000_0000,
        decreases b@.len() - i,
    {
        let c = b[i];
        if !byte_is_digit(c) {
            assert(!is_digits(b@));
            assert(parse_i32_spec(gs) is None);
            return None;
        }
        proof {
            assert(b@.subrange(0, i + 1).drop_last() =~= b@.subrange(0, i as int));
            assert(b@.subrange(0, i + 1).last() == c);
        }
        acc = acc * 10 + ((c - DIG0) as i64);
        i = i + 1;
        if acc > 0x8000_0000 {
            if check_rest_digits(b, i) {
                proof {
                    assert(is_digits(b@));
                    lemma_digits_val_prefix_le(b@, i as int);
                    assert(digits_val(b@) > 0x8000_0000);
                }
                assert(parse_i32_spec(gs) is None);
                return None;
            } else {
                assert(!is_digits(b@));
                assert(parse_i32_spec(gs) is None);
                return None;
            }
        }
    }
    proof {
        assert(b@.subrange(0, b@.len() as int) =~= b@);
        assert(is_digits(b@));
    }
    if neg {
        assert(!is_digits(gs)) by {
            assert(gs[0] == MINUS);
        }
        if acc > 0x8000_0000 {
            assert(parse_i32_spec(gs) is None);
            None
        } else {
            Some((-acc) as i32)
        }
    } else {
        if acc > 0x7fff_ffff {
            assert(parse_i32_spec(gs) is None);
            None
        } else {
            Some(acc as i32)
        }
    }
}

/// Whether every byte of `s` from `i` on is a digit.
fn check_rest_digits(s: &[u8], i: usize) -> (r: bool)
    requires
        i <= s@.len(),
    ensures
        r == forall|j: int| i <= j < s@.len() ==> is_digit(#[trigger] s@[j]),
{
    let mut k: usize = i;
    while k < s.len()
        invariant
            i <= k <= s.len(),
            forall|j: int| i <= j < k ==> is_digit(#[trigger] s@[j]),
        decreases s.len() - k,
    {
        if !byte_is_digit(s[k]) {
            return false;
        }
        k = k + 1;
    }
    true
}

/// Render a nonnegative value as its canonical digit run.
fn render_nat_exec(v: u32) -> (r: Vec<u8>)
    ensures
        r@ == render_nat(v as int),
    decreases v,
{
    if v < 10 {
        let mut r: Vec<u8> = Vec::new();
        r.push(DIG0 + (v as u8));
        proof {
            assert(r@ =~= render_nat(v as int));
        }
        r
    } else {
        let mut r = render_nat_exec(v / 10);
        r.push(DIG0 + ((v % 10) as u8));
        r
    }
}

/// Render an `i32` as its canonical decimal literal.
pub fn render_int(v: i32) -> (r: Vec<u8>)
    ensures
        r@ == render_i32(v as int),
{
    if v >= 0 {
        render_nat_exec(v as u32)
    } else {
        let m: u32 = (-(v as i64)) as u32;
        let mut out: Vec<u8> = Vec::new();
        out.push(MINUS);
        let d = render_nat_exec(m);
        crate::ascii::extend_from(&mut out, d.as_slice());
        proof {
            assert(out@ =~= seq![MINUS].add(render_nat(-(v as int))));
        }
        out
    }
}

/// Scan of a literal's body: every byte a digit or a first decimal point,
/// and at least one digit over the whole body.
pub open spec fn float_body_ok(s: Seq<u8>, seen_dot: bool, seen_digit: bool) -> bool
    decreases s.len(),
{
    if s.len() == 0 {
        seen_digit
    } else if is_digit(s[0]) {
        float_body_ok(s.drop_first(), seen_dot, true)
    } else if s[0] == DOT {
        !seen_dot && float_body_ok(s.drop_first(), true, seen_digit)
    } else {
        false
    }
}

/// A fractional literal: an optional minus sign, then digits with at most one
/// decimal point and at least one digit.
pub open spec fn is_float_lit(s: Seq<u8>) -> bool {
    let b = if s.len() > 0 && s[0] == MINUS {
        s.drop_first()
    } else {
        s
    };
    float_body_ok(b, false, false)
}

/// Every byte of a body that scans well is a digit or a decimal point.
pub proof fn lemma_float_body_bytes(s: Seq<u8>, seen_dot: bool, seen_digit: bool)
    requires
        float_body_ok(s, seen_dot, seen_digit),
    ensures
        forall|i: int| 0 <= i < s.len() ==> is_digit(#[trigger] s[i]) || s[i] == DOT,
        !seen_digit ==> s.len() > 0,
    decreases s.len(),
{
    if s.len() > 0 {
        if is_digit(s[0]) {
            lemma_float_body_bytes(s.drop_first(), seen_dot, true);
        } else {
            lemma_float_body_bytes(s.drop_first(), true, seen_digit);
        }
        assert(forall|i: int| 1 <= i < s.len() ==> s[i] == s.drop_first()[i - 1]);
    }
}

/// Every byte of a fractional literal is a digit, a decimal point, or the
/// leading minus sign; and the literal is nonempty.
pub proof fn lemma_float_lit_bytes(s: Seq<u8>)
    requires
        is_float_lit(s),
    ensures
        s.len() > 0,
        forall|i: int|
            0 <= i < s.len() ==> is_digit(#[trigger] s[i]) || s[i] == DOT || (i == 0 && s[i]
                == MINUS),
{
    if s.len() > 0 && s[0] == MINUS {
        lemma_float_body_bytes(s.drop_first(), false, false);
        assert(forall|i: int| 1 <= i < s.len() ==> s[i] == s.drop_first()[i - 1]);
    } else {
        lemma_float_body_bytes(s, false, false);
    }
}

/// Whether `s` is a fractional literal.
pub fn check_float_lit(s: &[u8]) -> (r: bool)
    ensures
        r == is_float_lit(s@),
{
    let ghost gs = s@;
    let start: usize = if s.len() > 0 && s[0] == MINUS {
        1
    } else {
        0
    };
    let b: &[u8] = vstd::slice::slice_subrange(s, start, s.len());
    proof {
        if start == 1 {
            assert(b@ =~= gs.drop_first());
        } else {
            assert(b@ =~= gs);
        }
    }
    let mut saw_digit = false;
    let mut saw_dot = false;
    let mut i: usize = 0;
    proof {
        assert(b@.skip(0) =~= b@);
    }
    while i < b.len()
        invariant
            0 <= i <= b@.len(),
            float_body_ok(b@, false, false) == float_body_ok(
                b@.skip(i as int),
                saw_dot,
                saw_digit,
            ),
        decreases b@.len() - i,
    {
        let c = b[i];
        proof {
            assert(b@.skip(i as int)[0] == c);
            assert(b@.skip(i as int).drop_first() =~= b@.skip(i + 1));
        }
        if byte_is_digit(c) {
            saw_digit = true;
        } else if c == DOT {
            if saw_dot {
                assert(!float_body_ok(b@.skip(i as int), saw_dot, saw_digit));
                return false;
            }
            saw_dot = true;
        } else {
            assert(!float_body_ok(b@.skip(i as int), saw_dot, saw_digit));
            return false;
        }
        i = i + 1;
    }
    proof {
        assert(b@.skip(b@.len() as int) =~= Seq::<u8>::empty());
    }
    saw_digit
}

/// A fractional argument value, held as the decimal literal that denotes it.
/// The codec never computes with these values; keeping the literal makes the
/// serializer an exact inverse of the mapper.
#[derive(Debug)]
pub struct Num {
    /// The literal, e.g. `-12.5`. Well-formed when `is_float_lit` holds.
    pub lit: Vec<u8>,
}

impl View for Num {
    type V = Seq<u8>;

    open spec fn view(&self) -> Seq<u8> {
        self.lit@
    }
}

impl Clone for Num {
    /// Cloning keeps the literal.
    fn clone(&self) -> (r: Self)
        ensures
            r@ == self@,
    {
        let mut v: Vec<u8> = Vec::new();
        let mut i: usize = 0;
        while i < self.lit.len()
            invariant
                0 <= i <= self.lit.len(),
                v@ =~= self.lit@.subrange(0, i as int),
            decreases self.lit.len() - i,
        {
            v.push(self.lit[i]);
            proof {
                assert(self.lit@.subrange(0, i + 1) =~= self.lit@.subrange(0, i as int).push(
                    self.lit@[i as int],
                ));
            }
            i = i + 1;
        }
        proof {
            assert(self.lit@.subrange(0, self.lit@.len() as int) =~= self.lit@);
        }
        Num { lit: v }
    }
}

impl Num {
    /// Whether the held literal is a well-formed fractional literal.
    pub open spec fn wf(&self) -> bool {
        is_float_lit(self.lit@)
    }

    /// Accept an argument token as a fractional value, or reject it.
    pub fn from_token(t: Vec<u8>) -> (r: Option<Num>)
        ensures
            match r {
                Some(n) => is_float_lit(t@) && n@ == t@ && n.wf(),
                None => !is_float_lit(t@),
            },
    {
        if check_float_lit(t.as_slice()) {
            Some(Num { lit: t })
        } else {
            None
        }
    }
}

/// The literal `0.0`, the default for an omitted numeric value.
pub open spec fn zero_lit() -> Seq<u8> {
    seq![DIG0, DOT, DIG0]
}

/// The literal `1.0`, the default for an omitted damage value.
pub open spec fn one_lit() -> Seq<u8> {
    seq![(DIG0 + 1) as u8, DOT, DIG0]
}

/// A three-byte literal `d.d` scans well.
proof fn lemma_digit_dot_digit_wf(s: Seq<u8>)
    requires
        s.len() == 3,
        is_digit(s[0]),
        s[1] == DOT,
        is_digit(s[2]),
    ensures
        is_float_lit(s),
{
    let s1 = s.drop_first();
    let s2 = s1.drop_first();
    let s3 = s2.drop_first();
    assert(s1 =~= s.subrange(1, 3));
    assert(s2 =~= s.subrange(2, 3));
    assert(s3 =~= Seq::<u8>::empty());
    assert(s1[0] == DOT && s2[0] == s[2]);
    assert(float_body_ok(s3, true, true));
    assert(float_body_ok(s2, true, true));
    assert(float_body_ok(s1, false, true));
    assert(float_body_ok(s, false, false));
    assert(s[0] != MINUS);
}

/// `0.0` is well formed.
pub proof fn lemma_zero_lit_wf()
    ensures
        is_float_lit(zero_lit()),
{
    lemma_digit_dot_digit_wf(zero_lit());
}

/// `1.0` is well formed.
pub proof fn lemma_one_lit_wf()
    ensures
        is_float_lit(one_lit()),
{
    lemma_digit_dot_digit_wf(one_lit());
}

/// The default value `0.0`.
pub fn num_zero() -> (r: Num)
    ensures
        r@ == zero_lit(),
        r.wf(),
{
    let mut v: Vec<u8> = Vec::new();
    v.push(DIG0);
    v.push(DOT);
    v.push(DIG0);
    proof {
        assert(v@ =~= zero_lit());
        lemma_zero_lit_wf();
    }
    Num { lit: v }
}

/// The default value `1.0`.
pub fn num_one() -> (r: Num)
    ensures
        r@ == one_lit(),
        r.wf(),
{
    let mut v: Vec<u8> = Vec::new();
    v.push(DIG0 + 1);
    v.push(DOT);
    v.push(DIG0);
    proof {
        assert(v@ =~= one_lit());
        lemma_one_lit_wf();
    }
    Num { lit: v }
}

} // verus!
