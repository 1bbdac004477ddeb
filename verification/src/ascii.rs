//! Byte classes and whitespace trimming for the statement grammar.
//!
//! The grammar is pure ASCII, so all text in the codec is handled as byte
//! sequences. This module names the delimiter bytes, classifies the bytes
//! that may appear in identifiers, numbers and string fields, and defines
//! trimming of the whitespace that may surround any token.

use vstd::prelude::*;

verus! {

/// `"` — delimits string arguments.
pub const QUOTE: u8 = 34;

/// `(` — opens a statement's argument list.
pub const LPAR: u8 = 40;

/// `)` — closes a statement's argument list.
pub const RPAR: u8 = 41;

/// `,` — separates arguments and family-list pairs.
pub const COMMA: u8 = 44;

/// `{` — opens an armor-family entry.
pub const LBRACE: u8 = 123;

/// `}` — closes an armor-family entry.
pub const RBRACE: u8 = 125;

/// `=` — binds a family name to its value.
pub const EQUALS: u8 = 61;

/// `.` — the decimal point of a fractional literal.
pub const DOT: u8 = 46;

/// `-` — the sign of a negative literal.
pub const MINUS: u8 = 45;

/// `;` — the statement terminator the serializer emits.
pub const SEMI: u8 = 59;

/// `' '`.
pub const SPACE: u8 = 32;

/// Horizontal tab.
pub const TAB: u8 = 9;

/// Carriage return.
pub const CR: u8 = 13;

/// Line feed.
pub const LF: u8 = 10;

/// `'0'`.
pub const DIG0: u8 = 48;

/// `'9'`.
pub const DIG9: u8 = 57;

/// `'_'`.
pub const UNDERSCORE: u8 = 95;

/// The whitespace bytes tolerated between tokens: space, tab, CR, LF.
pub open spec fn is_ws(c: u8) -> bool {
    c == SPACE || c == TAB || c == CR || c == LF
}

/// A decimal digit.
pub open spec fn is_digit(c: u8) -> bool {
    DIG0 <= c <= DIG9
}

/// A byte of an identifier (armor-family name): letter, digit or underscore.
pub open spec fn is_ident_byte(c: u8) -> bool {
    is_digit(c) || (65 <= c <= 90) || (97 <= c <= 122) || c == UNDERSCORE
}

/// A nonempty run of identifier bytes.
pub open spec fn is_ident(s: Seq<u8>) -> bool {
    s.len() > 0 && forall|i: int| 0 <= i < s.len() ==> is_ident_byte(#[trigger] s[i])
}

/// A byte that may stand inside a string field: printable ASCII except the
/// quote and the parentheses. The grammar has no escaping, so a quote would
/// end the field early and a parenthesis would be taken for statement
/// structure; every other byte — commas and braces included — is protected
/// by the surrounding quotes and round-trips losslessly.
pub open spec fn is_str_byte(c: u8) -> bool {
    32 <= c <= 126 && c != QUOTE && c != LPAR && c != RPAR
}

/// A well-formed string-field value (possibly empty).
pub open spec fn is_field_str(s: Seq<u8>) -> bool {
    forall|i: int| 0 <= i < s.len() ==> is_str_byte(#[trigger] s[i])
}

/// The sequence without its leading whitespace.
pub open spec fn trim_front(s: Seq<u8>) -> Seq<u8>
    decreases s.len(),
{
    if s.len() > 0 && is_ws(s[0]) {
        trim_front(s.drop_first())
    } else {
        s
    }
}

/// The sequence without its trailing whitespace.
pub open spec fn trim_back(s: Seq<u8>) -> Seq<u8>
    decreases s.len(),
{
    if s.len() > 0 && is_ws(s.last()) {
        trim_back(s.drop_last())
    } else {
        s
    }
}

/// The sequence without leading or trailing whitespace.
pub open spec fn trim(s: Seq<u8>) -> Seq<u8> {
    trim_back(trim_front(s))
}

/// Trimming a sequence whose ends are already clean changes nothing.
pub proof fn lemma_trim_clean(s: Seq<u8>)
    requires
        s.len() > 0 ==> !is_ws(s[0]) && !is_ws(s.last()),
    ensures
        trim(s) == s,
{
}

/// Equality of two byte slices.
pub fn bytes_eq(a: &[u8], b: &[u8]) -> (r: bool)
    ensures
        r == (a@ == b@),
{
    if a.len() != b.len() {
        assert(a@ != b@);
        return false;
    }
    let mut i: usize = 0;
    while i < a.len()
        invariant
            0 <= i <= a.len(),
            a.len() == b.len(),
            forall|j: int| 0 <= j < i ==> a@[j] == b@[j],
        decreases a.len() - i,
    {
        if a[i] != b[i] {
            assert(a@ != b@);
            return false;
        }
        i = i + 1;
    }
    assert(a@ =~= b@);
    true
}

/// Append every byte of `s` to `out`.
pub fn extend_from(out: &mut Vec<u8>, s: &[u8])
    ensures
        final(out)@ == old(out)@ + s@,
{
    let mut i: usize = 0;
    while i < s.len()
        invariant
            0 <= i <= s.len(),
            out@ =~= old(out)@ + s@.subrange(0, i as int),
        decreases s.len() - i,
    {
        let c = s[i];
        out.push(c);
        proof {
            assert(s@.subrange(0, i + 1) =~= s@.subrange(0, i as int).push(c));
        }
        i = i + 1;
    }
    proof {
        assert(s@.subrange(0, s@.len() as int) =~= s@);
    }
}

/// A fresh copy of a byte vector.
pub fn copy_vec(v: &Vec<u8>) -> (r: Vec<u8>)
    ensures
        r@ == v@,
{
    let mut r: Vec<u8> = Vec::new();
    let mut i: usize = 0;
    while i < v.len()
        invariant
            0 <= i <= v.len(),
            r@ =~= v@.subrange(0, i as int),
        decreases v.len() - i,
    {
        let c = v[i];
        r.push(c);
        proof {
            assert(v@.subrange(0, i + 1) =~= v@.subrange(0, i as int).push(c));
        }
        i = i + 1;
    }
    proof {
        assert(v@.subrange(0, v@.len() as int) =~= v@);
    }
    r
}

/// Trim leading and trailing whitespace from a byte slice.
pub fn trim_slice(s: &[u8]) -> (r: Vec<u8>)
    ensures
        r@ == trim(s@),
{
    let mut start: usize = 0;
    proof {
        assert(s@.skip(0) =~= s@);
    }
    while start < s.len() && byte_is_ws(s[start])
        invariant
            0 <= start <= s@.len(),
            trim_front(s@) == trim_front(s@.skip(start as int)),
        decreases s@.len() - start,
    {
        proof {
            assert(s@.skip(start as int).drop_first() =~= s@.skip(start + 1));
        }
        start = start + 1;
    }
    let ghost t = s@.skip(start as int);
    proof {
        assert(trim_front(t) == t);
    }
    let mut end: usize = s.len();
    proof {
        assert(t.take(s@.len() - start) =~= t);
    }
    while end > start && byte_is_ws(s[end - 1])
        invariant
            start <= end <= s@.len(),
            trim_back(t) == trim_back(t.take(end - start)),
        decreases end,
    {
        proof {
            let cut = t.take(end - start);
            assert(cut.last() == s@[end - 1]);
            assert(cut.drop_last() =~= t.take(end - start - 1));
        }
        end = end - 1;
    }
    proof {
        let cut = t.take(end - start);
        if end > start {
            assert(cut.last() == s@[end - 1]);
        }
        assert(trim_back(cut) == cut);
        assert(trim(s@) == t.take(end - start));
    }
    let trimmed: &[u8] = vstd::slice::slice_subrange(s, start, end);
    let r = vstd::slice::slice_to_vec(trimmed);
    proof {
        assert(r@ =~= trim(s@));
    }
    r
}

/// Whitespace test on a concrete byte.
pub fn byte_is_ws(c: u8) -> (r: bool)
    ensures
        r == is_ws(c),
{
    c == SPACE || c == TAB || c == CR || c == LF
}

/// Digit test on a concrete byte.
pub fn byte_is_digit(c: u8) -> (r: bool)
    ensures
        r == is_digit(c),
{
    DIG0 <= c && c <= DIG9
}

/// Identifier-byte test on a concrete byte.
pub fn byte_is_ident(c: u8) -> (r: bool)
    ensures
        r == is_ident_byte(c),
{
    byte_is_digit(c) || (65 <= c && c <= 90) || (97 <= c && c <= 122) || c == UNDERSCORE
}

/// String-field-byte test on a concrete byte.
pub fn byte_is_str(c: u8) -> (r: bool)
    ensures
        r == is_str_byte(c),
{
    32 <= c && c <= 126 && c != QUOTE && c != LPAR && c != RPAR
}

/// Whether every byte of `s` is an identifier byte and `s` is nonempty.
pub fn check_ident(s: &[u8]) -> (r: bool)
    ensures
        r == is_ident(s@),
{
    if s.len() == 0 {
        return false;
    }
    let mut i: usize = 0;
    while i < s.len()
        invariant
            0 <= i <= s.len(),
            forall|j: int| 0 <= j < i ==> is_ident_byte(#[trigger] s@[j]),
        decreases s.len() - i,
    {
        if !byte_is_ident(s[i]) {
            return false;
        }
        i = i + 1;
    }
    true
}

/// Whether every byte of `s` may stand in a string field.
pub fn check_field_str(s: &[u8]) -> (r: bool)
    ensures
        r == is_field_str(s@),
{
    let mut i: usize = 0;
    while i < s.len()
        invariant
            0 <= i <= s.len(),
            forall|j: int| 0 <= j < i ==> is_str_byte(#[trigger] s@[j]),
        decreases s.len() - i,
    {
        if !byte_is_str(s[i]) {
            return false;
        }
        i = i + 1;
    }
    true
}

} // verus!
