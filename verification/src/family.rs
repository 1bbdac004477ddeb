//! The armor-family entry shared by the penetration and accuracy statements.
//!
//! An entry is a braced token `{family=value}` or
//! `{family=value, damage=value}`, with optional whitespace around names and
//! values and an optional trailing comma. A missing numeric value defaults
//! to `0.0`; a missing damage pair defaults to `1.0` — the two mappers apply
//! those defaults. The entry is rendered back without padding:
//! `{family=value}` or `{family=value,damage=value}`.

use vstd::prelude::*;

use crate::ascii::{is_digit, is_ident, is_ident_byte, is_ws, trim, COMMA, DOT, EQUALS, LBRACE,
    MINUS, QUOTE, LPAR, RPAR, RBRACE};
use crate::ascii::{check_ident, extend_from, trim_slice};
use crate::locator::{find_byte, lemma_find_byte, scan_byte};
use crate::names::{damage_kw, damage_kw_bytes, is_letter};
use crate::num::{check_float_lit, is_float_lit, lemma_float_lit_bytes, Num};
use crate::tokenizer::{clean_token, lemma_clean_plain, token_braced, token_clean};

verus! {

/// A `key=value` pair: the key an identifier, the value a fractional
/// literal or empty (omitted).
pub open spec fn parse_pair(part: Seq<u8>) -> Option<(Seq<u8>, Seq<u8>)> {
    match find_byte(part, EQUALS) {
        Option::None => Option::None,
        Option::Some(j) => {
            let left = trim(part.subrange(0, j));
            let right = trim(part.skip(j + 1));
            if is_ident(left) && (right.len() == 0 || is_float_lit(right)) {
                Option::Some((left, right))
            } else {
                Option::None
            }
        },
    }
}

/// Parse one armor-family token: the family name, its raw value literal
/// (empty when omitted), and the raw damage literal if a damage pair is
/// present (empty when its value is omitted).
pub open spec fn parse_family_spec(tok: Seq<u8>) -> Option<(Seq<u8>, Seq<u8>, Option<Seq<u8>>)> {
    if tok.len() >= 2 && tok[0] == LBRACE && tok.last() == RBRACE {
        let inner = tok.subrange(1, tok.len() - 1);
        match find_byte(inner, COMMA) {
            Option::None => match parse_pair(inner) {
                Option::None => Option::None,
                Option::Some(p) => Option::Some((p.0, p.1, Option::None)),
            },
            Option::Some(j) => {
                let part0 = inner.subrange(0, j);
                let rest = inner.skip(j + 1);
                match parse_pair(part0) {
                    Option::None => Option::None,
                    Option::Some(p) => {
                        if trim(rest).len() == 0 {
                            Option::Some((p.0, p.1, Option::None))
                        } else {
                            match find_byte(rest, COMMA) {
                                Option::None => match parse_damage(rest) {
                                    Option::None => Option::None,
                                    Option::Some(d) => Option::Some((p.0, p.1, Option::Some(d))),
                                },
                                Option::Some(j2) => {
                                    if trim(rest.skip(j2 + 1)).len() == 0 {
                                        match parse_damage(rest.subrange(0, j2)) {
                                            Option::None => Option::None,
                                            Option::Some(d) => Option::Some(
                                                (p.0, p.1, Option::Some(d)),
                                            ),
                                        }
                                    } else {
                                        Option::None
                                    }
                                },
                            }
                        }
                    },
                }
            },
        }
    } else {
        Option::None
    }
}

/// A damage pair: `damage=value`.
pub open spec fn parse_damage(part: Seq<u8>) -> Option<Seq<u8>> {
    match parse_pair(part) {
        Option::None => Option::None,
        Option::Some(p) => if p.0 == damage_kw() {
            Option::Some(p.1)
        } else {
            Option::None
        },
    }
}

/// Parse a `key=value` pair from a slice.
fn parse_pair_exec(part: &[u8]) -> (r: Option<(Vec<u8>, Vec<u8>)>)
    ensures
        match r {
            Option::Some(p) => parse_pair(part@) == Option::Some((p.0@, p.1@)),
            Option::None => parse_pair(part@) is None,
        },
{
    proof {
        assert(part@.skip(0) =~= part@);
    }
    let n = part.len();
    let j = match scan_byte(part, 0, EQUALS) {
        Option::Some(j) => j,
        Option::None => {
            return Option::None;
        },
    };
    let left = trim_slice(vstd::slice::slice_subrange(part, 0, j));
    let right = trim_slice(vstd::slice::slice_subrange(part, j + 1, part.len()));
    proof {
        assert(part@.subrange(0, j as int) =~= part@.subrange(0, j as int));
        assert(part@.subrange(j + 1, part@.len() as int) =~= part@.skip(j + 1));
    }
    if !check_ident(left.as_slice()) {
        return Option::None;
    }
    if right.len() > 0 && !check_float_lit(right.as_slice()) {
        return Option::None;
    }
    Option::Some((left, right))
}

/// Parse a damage pair from a slice.
fn parse_damage_exec(part: &[u8]) -> (r: Option<Vec<u8>>)
    ensures
        match r {
            Option::Some(d) => parse_damage(part@) == Option::Some(d@),
            Option::None => parse_damage(part@) is None,
        },
{
    let p = match parse_pair_exec(part) {
        Option::Some(p) => p,
        Option::None => {
            return Option::None;
        },
    };
    let kw = damage_kw_bytes();
    if crate::ascii::bytes_eq(p.0.as_slice(), kw.as_slice()) {
        Option::Some(p.1)
    } else {
        Option::None
    }
}

/// Parse one armor-family token.
pub fn parse_family(tok: &[u8]) -> (r: Option<(Vec<u8>, Vec<u8>, Option<Vec<u8>>)>)
    ensures
        match r {
            Option::Some(t) => parse_family_spec(tok@) == Option::Some(
                (
                    t.0@,
                    t.1@,
                    match t.2 {
                        Option::Some(d) => Option::Some(d@),
                        Option::None => Option::<Seq<u8>>::None,
                    },
                ),
            ),
            Option::None => parse_family_spec(tok@) is None,
        },
{
    if tok.len() < 2 || tok[0] != LBRACE || tok[tok.len() - 1] != RBRACE {
        proof {
            if tok@.len() >= 2 {
                assert(tok@.last() == tok@[tok@.len() - 1]);
            }
        }
        return Option::None;
    }
    proof {
        assert(tok@.last() == tok@[tok@.len() - 1]);
    }
    let inner_s = vstd::slice::slice_subrange(tok, 1, tok.len() - 1);
    let ghost inner = tok@.subrange(1, tok@.len() - 1);
    proof {
        assert(inner_s@ =~= inner);
        assert(inner.skip(0) =~= inner);
    }
    let j = match scan_byte(inner_s, 0, COMMA) {
        Option::None => {
            let p = match parse_pair_exec(inner_s) {
                Option::Some(p) => p,
                Option::None => {
                    return Option::None;
                },
            };
            return Option::Some((p.0, p.1, Option::None));
        },
        Option::Some(j) => j,
    };
    let part0 = vstd::slice::slice_subrange(inner_s, 0, j);
    proof {
        assert(part0@ =~= inner.subrange(0, j as int));
    }
    let p = match parse_pair_exec(part0) {
        Option::Some(p) => p,
        Option::None => {
            return Option::None;
        },
    };
    let rest = vstd::slice::slice_subrange(inner_s, j + 1, inner_s.len());
    proof {
        assert(rest@ =~= inner.skip(j + 1));
        assert(rest@.skip(0) =~= rest@);
    }
    let rest_trimmed = trim_slice(rest);
    if rest_trimmed.len() == 0 {
        return Option::Some((p.0, p.1, Option::None));
    }
    match scan_byte(rest, 0, COMMA) {
        Option::None => {
            match parse_damage_exec(rest) {
                Option::Some(d) => Option::Some((p.0, p.1, Option::Some(d))),
                Option::None => Option::None,
            }
        },
        Option::Some(j2) => {
            let tail = vstd::slice::slice_subrange(rest, j2 + 1, rest.len());
            proof {
                assert(tail@ =~= rest@.skip(j2 + 1));
            }
            let tail_trimmed = trim_slice(tail);
            if tail_trimmed.len() != 0 {
                return Option::None;
            }
            let part1 = vstd::slice::slice_subrange(rest, 0, j2);
            proof {
                assert(part1@ =~= rest@.subrange(0, j2 as int));
            }
            match parse_damage_exec(part1) {
                Option::Some(d) => Option::Some((p.0, p.1, Option::Some(d))),
                Option::None => Option::None,
            }
        },
    }
}

/// The canonical rendering of a penetration family entry: `{family=value}`.
pub open spec fn fam_pen_token(fam: Seq<u8>, val: Seq<u8>) -> Seq<u8> {
    seq![LBRACE].add(fam).add(seq![EQUALS]).add(val).add(seq![RBRACE])
}

/// The canonical rendering of an accuracy family entry:
/// `{family=value,damage=value}`.
pub open spec fn fam_acc_token(fam: Seq<u8>, val: Seq<u8>, dmg: Seq<u8>) -> Seq<u8> {
    seq![LBRACE].add(fam).add(seq![EQUALS]).add(val).add(seq![COMMA]).add(damage_kw()).add(
        seq![EQUALS],
    ).add(dmg).add(seq![RBRACE])
}

/// Render a penetration family entry.
pub fn render_fam_pen(fam: &[u8], val: &Num) -> (r: Vec<u8>)
    ensures
        r@ == fam_pen_token(fam@, val@),
{
    let mut out: Vec<u8> = Vec::new();
    out.push(LBRACE);
    extend_from(&mut out, fam);
    out.push(EQUALS);
    extend_from(&mut out, val.lit.as_slice());
    out.push(RBRACE);
    proof {
        assert(out@ =~= fam_pen_token(fam@, val@));
    }
    out
}

/// Render an accuracy family entry.
pub fn render_fam_acc(fam: &[u8], val: &Num, dmg: &Num) -> (r: Vec<u8>)
    ensures
        r@ == fam_acc_token(fam@, val@, dmg@),
{
    let mut out: Vec<u8> = Vec::new();
    out.push(LBRACE);
    extend_from(&mut out, fam);
    out.push(EQUALS);
    extend_from(&mut out, val.lit.as_slice());
    out.push(COMMA);
    let kw = damage_kw_bytes();
    extend_from(&mut out, kw.as_slice());
    out.push(EQUALS);
    extend_from(&mut out, dmg.lit.as_slice());
    out.push(RBRACE);
    proof {
        assert(out@ =~= fam_acc_token(fam@, val@, dmg@));
    }
    out
}

/// An identifier byte is not whitespace and not a delimiter.
pub proof fn lemma_ident_bytes(s: Seq<u8>)
    requires
        is_ident(s),
    ensures
        forall|i: int|
            0 <= i < s.len() ==> !is_ws(#[trigger] s[i]) && s[i] != COMMA && s[i] != EQUALS
                && s[i] != QUOTE && s[i] != LBRACE && s[i] != RBRACE && s[i] != LPAR && s[i]
                != RPAR,
{
    assert(forall|i: int| 0 <= i < s.len() ==> is_ident_byte(#[trigger] s[i]));
}

/// A fractional literal's bytes are not whitespace and not delimiters.
pub proof fn lemma_float_bytes_plain(s: Seq<u8>)
    requires
        is_float_lit(s),
    ensures
        s.len() > 0,
        forall|i: int|
            0 <= i < s.len() ==> !is_ws(#[trigger] s[i]) && s[i] != COMMA && s[i] != EQUALS
                && s[i] != QUOTE && s[i] != LBRACE && s[i] != RBRACE && s[i] != LPAR && s[i]
                != RPAR,
{
    lemma_float_lit_bytes(s);
    assert(forall|i: int|
        0 <= i < s.len() ==> is_digit(#[trigger] s[i]) || s[i] == DOT || s[i] == MINUS);
}

/// A rendered penetration entry is a braced token.
pub proof fn lemma_fam_pen_clean(fam: Seq<u8>, val: Seq<u8>)
    requires
        is_ident(fam),
        is_float_lit(val),
    ensures
        token_braced(fam_pen_token(fam, val)),
        token_clean(fam_pen_token(fam, val)),
        clean_token(fam_pen_token(fam, val)) == fam_pen_token(fam, val),
{
    let t = fam_pen_token(fam, val);
    lemma_ident_bytes(fam);
    lemma_float_bytes_plain(val);
    assert(t[0] == LBRACE);
    assert(t[t.len() - 1] == RBRACE);
    assert(t.last() == RBRACE);
    assert(forall|i: int|
        1 <= i < t.len() - 1 ==> #[trigger] t[i] != QUOTE && t[i] != LBRACE && t[i] != RBRACE
            && t[i] != LPAR && t[i] != RPAR) by {
        assert(forall|i: int| 1 <= i < 1 + fam.len() ==> t[i] == fam[i - 1]);
        assert(t[1 + fam.len() as int] == EQUALS);
        assert(forall|i: int|
            2 + fam.len() <= i < 2 + fam.len() + val.len() ==> t[i] == val[i - 2 - fam.len()]);
    }
    assert(!is_ws(LBRACE) && !is_ws(RBRACE));
    lemma_clean_plain(t);
}

/// A rendered accuracy entry is a braced token.
pub proof fn lemma_fam_acc_clean(fam: Seq<u8>, val: Seq<u8>, dmg: Seq<u8>)
    requires
        is_ident(fam),
        is_float_lit(val),
        is_float_lit(dmg),
    ensures
        token_braced(fam_acc_token(fam, val, dmg)),
        token_clean(fam_acc_token(fam, val, dmg)),
        clean_token(fam_acc_token(fam, val, dmg)) == fam_acc_token(fam, val, dmg),
{
    let t = fam_acc_token(fam, val, dmg);
    lemma_ident_bytes(fam);
    lemma_float_bytes_plain(val);
    lemma_float_bytes_plain(dmg);
    lemma_damage_kw_bytes();
    assert(t[0] == LBRACE);
    assert(t[t.len() - 1] == RBRACE);
    assert(t.last() == RBRACE);
    let a = 1 + fam.len();
    let b = a + 1 + val.len();
    let c = b + 1 + 6;
    assert(forall|i: int|
        1 <= i < t.len() - 1 ==> #[trigger] t[i] != QUOTE && t[i] != LBRACE && t[i] != RBRACE
            && t[i] != LPAR && t[i] != RPAR) by {
        assert(forall|i: int| 1 <= i < a ==> t[i] == fam[i - 1]);
        assert(t[a as int] == EQUALS);
        assert(forall|i: int| a + 1 <= i < b ==> t[i] == val[i - a - 1]);
        assert(t[b as int] == COMMA);
        assert(forall|i: int| b + 1 <= i < c ==> t[i] == damage_kw()[i - b - 1]);
        assert(t[c as int] == EQUALS);
        assert(forall|i: int| c + 1 <= i < c + 1 + dmg.len() ==> t[i] == dmg[i - c - 1]);
    }
    assert(!is_ws(LBRACE) && !is_ws(RBRACE));
    lemma_clean_plain(t);
}

/// Every byte of `damage` is a letter, hence no delimiter.
proof fn lemma_damage_kw_bytes()
    ensures
        forall|i: int| 0 <= i < damage_kw().len() ==> is_letter(#[trigger] damage_kw()[i]),
        forall|i: int|
            0 <= i < damage_kw().len() ==> !is_ws(#[trigger] damage_kw()[i]) && damage_kw()[i]
                != COMMA && damage_kw()[i] != EQUALS && damage_kw()[i] != QUOTE && damage_kw()[i]
                != LBRACE && damage_kw()[i] != RBRACE && damage_kw()[i] != LPAR && damage_kw()[i]
                != RPAR,
{
    assert(forall|i: int| 0 <= i < 6 ==> is_letter(#[trigger] damage_kw()[i])) by {
        assert(damage_kw()[0] == 100 && damage_kw()[1] == 97 && damage_kw()[2] == 109
            && damage_kw()[3] == 97 && damage_kw()[4] == 103 && damage_kw()[5] == 101);
    }
}

/// A sequence with no occurrence of a byte is not found by `find_byte`.
pub proof fn lemma_find_byte_none(s: Seq<u8>, b: u8)
    requires
        forall|i: int| 0 <= i < s.len() ==> #[trigger] s[i] != b,
    ensures
        find_byte(s, b) is None,
{
    lemma_find_byte(s, b);
    if find_byte(s, b) is Some {
        let j = find_byte(s, b)->Some_0;
        assert(s[j] == b);
        assert(false);
    }
}

/// A well-formed pair parses back to its parts.
proof fn lemma_pair_round_trip(fam: Seq<u8>, val: Seq<u8>)
    requires
        is_ident(fam),
        is_float_lit(val),
    ensures
        parse_pair(fam.add(seq![EQUALS]).add(val)) == Option::Some((fam, val)),
{
    let part = fam.add(seq![EQUALS]).add(val);
    lemma_ident_bytes(fam);
    lemma_float_bytes_plain(val);
    assert(part[fam.len() as int] == EQUALS);
    assert(forall|i: int| 0 <= i < fam.len() ==> part[i] == fam[i] && part[i] != EQUALS);
    crate::placement::lemma_find_byte_at(part, EQUALS, fam.len() as int);
    assert(part.subrange(0, fam.len() as int) =~= fam);
    assert(part.skip(fam.len() + 1int) =~= val);
    crate::ascii::lemma_trim_clean(fam);
    crate::ascii::lemma_trim_clean(val);
}

/// A rendered penetration entry parses back to its parts.
pub proof fn lemma_fam_pen_round_trip(fam: Seq<u8>, val: Seq<u8>)
    requires
        is_ident(fam),
        is_float_lit(val),
    ensures
        parse_family_spec(fam_pen_token(fam, val)) == Option::Some(
            (fam, val, Option::<Seq<u8>>::None),
        ),
{
    let t = fam_pen_token(fam, val);
    lemma_ident_bytes(fam);
    lemma_float_bytes_plain(val);
    assert(t[0] == LBRACE && t.last() == RBRACE && t.len() >= 2);
    let inner = t.subrange(1, t.len() - 1);
    assert(inner =~= fam.add(seq![EQUALS]).add(val));
    lemma_find_byte_none(inner, COMMA);
    lemma_pair_round_trip(fam, val);
}

/// A rendered accuracy entry parses back to its parts.
pub proof fn lemma_fam_acc_round_trip(fam: Seq<u8>, val: Seq<u8>, dmg: Seq<u8>)
    requires
        is_ident(fam),
        is_float_lit(val),
        is_float_lit(dmg),
    ensures
        parse_family_spec(fam_acc_token(fam, val, dmg)) == Option::Some(
            (fam, val, Option::Some(dmg)),
        ),
{
    let t = fam_acc_token(fam, val, dmg);
    lemma_ident_bytes(fam);
    lemma_float_bytes_plain(val);
    lemma_float_bytes_plain(dmg);
    lemma_damage_kw_bytes();
    assert(t[0] == LBRACE && t.last() == RBRACE && t.len() >= 2);
    let inner = t.subrange(1, t.len() - 1);
    let part0 = fam.add(seq![EQUALS]).add(val);
    let rest = damage_kw().add(seq![EQUALS]).add(dmg);
    assert(inner =~= part0.add(seq![COMMA]).add(rest));
    assert(inner[part0.len() as int] == COMMA);
    assert(forall|i: int| 0 <= i < part0.len() ==> inner[i] == part0[i] && part0[i] != COMMA);
    crate::placement::lemma_find_byte_at(inner, COMMA, part0.len() as int);
    assert(inner.subrange(0, part0.len() as int) =~= part0);
    assert(inner.skip(part0.len() + 1int) =~= rest);
    lemma_pair_round_trip(fam, val);
    assert(trim(rest).len() != 0) by {
        crate::ascii::lemma_trim_clean(rest);
    }
    lemma_find_byte_none(rest, COMMA);
    assert(is_ident(damage_kw())) by {
        assert(forall|i: int| 0 <= i < 6 ==> is_ident_byte(#[trigger] damage_kw()[i])) by {
            assert(damage_kw()[0] == 100 && damage_kw()[1] == 97 && damage_kw()[2] == 109
                && damage_kw()[3] == 97 && damage_kw()[4] == 103 && damage_kw()[5] == 101);
        }
    }
    assert(parse_pair(rest) == Option::Some((damage_kw(), dmg))) by {
        assert(rest[damage_kw().len() as int] == EQUALS);
        assert(forall|i: int|
            0 <= i < damage_kw().len() ==> rest[i] == damage_kw()[i] && rest[i] != EQUALS);
        crate::placement::lemma_find_byte_at(rest, EQUALS, damage_kw().len() as int);
        assert(rest.subrange(0, damage_kw().len() as int) =~= damage_kw());
        assert(rest.skip(damage_kw().len() + 1int) =~= dmg);
        crate::ascii::lemma_trim_clean(damage_kw());
        crate::ascii::lemma_trim_clean(dmg);
    }
}

/// What a parsed family entry is made of: an identifier and literals that
/// are empty only where a default applies.
pub proof fn lemma_parse_family_wf(tok: Seq<u8>)
    requires
        parse_family_spec(tok) is Some,
    ensures
        is_ident(parse_family_spec(tok)->Some_0.0),
        parse_family_spec(tok)->Some_0.1.len() == 0 || is_float_lit(
            parse_family_spec(tok)->Some_0.1,
        ),
        match parse_family_spec(tok)->Some_0.2 {
            Option::Some(d) => d.len() == 0 || is_float_lit(d),
            Option::None => true,
        },
{
}

} // verus!
