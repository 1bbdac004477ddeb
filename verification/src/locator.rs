//! Locating statements in raw source text.
//!
//! An occurrence of a statement is its name immediately followed by `(`,
//! optional whitespace, the fixed marker token `NewWeaponType`, optional
//! whitespace and a comma; the raw argument blob is everything up to the
//! next `)`. Occurrences are collected in text order; text that does not
//! match is skipped byte by byte, so arbitrary whitespace, terminators and
//! unrelated statements between occurrences are tolerated.

use vstd::prelude::*;

use crate::ascii::{is_ws, COMMA, LPAR, RPAR};
use crate::ascii::{byte_is_ws, bytes_eq};

verus! {

/// The marker token `NewWeaponType` that opens every statement's argument
/// list.
pub open spec fn marker() -> Seq<u8> {
    seq![78u8, 101u8, 119u8, 87u8, 101u8, 97u8, 112u8, 111u8, 110u8, 84u8, 121u8, 112u8, 101u8]
}

/// The marker as bytes for the serializer and the locator.
pub fn marker_bytes() -> (r: Vec<u8>)
    ensures
        r@ == marker(),
{
    let mut v: Vec<u8> = Vec::new();
    v.push(78);
    v.push(101);
    v.push(119);
    v.push(87);
    v.push(101);
    v.push(97);
    v.push(112);
    v.push(111);
    v.push(110);
    v.push(84);
    v.push(121);
    v.push(112);
    v.push(101);
    proof {
        assert(v@ =~= marker());
    }
    v
}

/// How many whitespace bytes `s` starts with.
pub open spec fn ws_count(s: Seq<u8>) -> nat
    decreases s.len(),
{
    if s.len() > 0 && is_ws(s[0]) {
        (1 + ws_count(s.drop_first())) as nat
    } else {
        0
    }
}

/// The whitespace prefix is within bounds and maximal.
pub proof fn lemma_ws_count(s: Seq<u8>)
    ensures
        ws_count(s) <= s.len(),
        forall|i: int| 0 <= i < ws_count(s) ==> is_ws(#[trigger] s[i]),
        ws_count(s) < s.len() ==> !is_ws(s[ws_count(s) as int]),
    decreases s.len(),
{
    if s.len() > 0 && is_ws(s[0]) {
        lemma_ws_count(s.drop_first());
        assert(forall|i: int| 1 <= i < s.len() ==> s[i] == s.drop_first()[i - 1]);
    }
}

/// The first index where byte `b` occurs in `s`.
pub open spec fn find_byte(s: Seq<u8>, b: u8) -> Option<int>
    decreases s.len(),
{
    if s.len() == 0 {
        Option::None
    } else if s[0] == b {
        Option::Some(0)
    } else {
        match find_byte(s.drop_first(), b) {
            Option::None => Option::None,
            Option::Some(j) => Option::Some(j + 1),
        }
    }
}

/// What `find_byte` returns: the first occurrence, or proof of absence.
pub proof fn lemma_find_byte(s: Seq<u8>, b: u8)
    ensures
        match find_byte(s, b) {
            Option::Some(j) => 0 <= j < s.len() && s[j] == b && forall|i: int|
                0 <= i < j ==> s[i] != b,
            Option::None => forall|i: int| 0 <= i < s.len() ==> s[i] != b,
        },
    decreases s.len(),
{
    if s.len() > 0 && s[0] != b {
        lemma_find_byte(s.drop_first(), b);
        assert(forall|i: int| 1 <= i < s.len() ==> s[i] == s.drop_first()[i - 1]);
    }
}

/// Match `ws* marker ws* ,` at the start of `s`; the offset just past the
/// comma on success.
pub open spec fn marker_comma(s: Seq<u8>) -> Option<int> {
    let a = ws_count(s) as int;
    if a + 13 <= s.len() && s.subrange(a, a + 13) == marker() {
        let b = ws_count(s.skip(a + 13)) as int;
        if a + 13 + b < s.len() && s[a + 13 + b] == COMMA {
            Option::Some(a + 13 + b + 1)
        } else {
            Option::None
        }
    } else {
        Option::None
    }
}

/// A successful marker match consumes between 14 bytes and all of `s`.
pub proof fn lemma_marker_comma(s: Seq<u8>)
    ensures
        match marker_comma(s) {
            Option::Some(k) => 14 <= k <= s.len(),
            Option::None => true,
        },
{
    lemma_ws_count(s);
    let a = ws_count(s) as int;
    if a + 13 <= s.len() && s.subrange(a, a + 13) == marker() {
        lemma_ws_count(s.skip(a + 13));
    }
}

/// Match one occurrence of `name` at the start of `text`: the raw argument
/// blob and the offset at which scanning resumes.
pub open spec fn head_stmt(text: Seq<u8>, name: Seq<u8>) -> Option<(Seq<u8>, int)> {
    if text.len() > name.len() && text.subrange(0, name.len() as int) == name && text[name.len() as int]
        == LPAR {
        let s = text.skip(name.len() + 1int);
        match marker_comma(s) {
            Option::None => Option::None,
            Option::Some(k) => {
                let rest = s.skip(k);
                match find_byte(rest, RPAR) {
                    Option::None => Option::None,
                    Option::Some(j) => Option::Some(
                        (rest.subrange(0, j), name.len() + 1 + k + j + 1),
                    ),
                }
            },
        }
    } else {
        Option::None
    }
}

/// A matched occurrence advances by at least one byte and at most the text.
pub proof fn lemma_head_stmt_adv(text: Seq<u8>, name: Seq<u8>)
    ensures
        match head_stmt(text, name) {
            Option::Some(pair) => 1 <= pair.1 <= text.len(),
            Option::None => true,
        },
{
    if text.len() > name.len() && text.subrange(0, name.len() as int) == name && text[name.len() as int]
        == LPAR {
        let s = text.skip(name.len() + 1int);
        lemma_marker_comma(s);
        match marker_comma(s) {
            Option::None => {},
            Option::Some(k) => {
                lemma_find_byte(s.skip(k), RPAR);
            },
        }
    }
}

/// Every occurrence of `name(NewWeaponType, ... )` in `text`, in text order:
/// the raw argument blob of each, the marker excluded.
pub open spec fn locate(text: Seq<u8>, name: Seq<u8>) -> Seq<Seq<u8>>
    decreases text.len(),
    via locate_dec
{
    if text.len() == 0 {
        seq![]
    } else {
        match head_stmt(text, name) {
            Option::Some(pair) => seq![pair.0].add(locate(text.skip(pair.1), name)),
            Option::None => locate(text.drop_first(), name),
        }
    }
}

#[via_fn]
proof fn locate_dec(text: Seq<u8>, name: Seq<u8>) {
    lemma_head_stmt_adv(text, name);
}

/// Whether `name(` stands at offset `i` of `text`.
fn name_paren_at(text: &[u8], i: usize, name: &[u8]) -> (r: bool)
    requires
        i <= text@.len(),
    ensures
        r == (text@.skip(i as int).len() > name@.len() && text@.skip(i as int).subrange(
            0,
            name@.len() as int,
        ) == name@ && text@.skip(i as int)[name@.len() as int] == LPAR),
{
    if text.len() - i <= name.len() {
        return false;
    }
    let head = vstd::slice::slice_subrange(text, i, i + name.len());
    if !bytes_eq(head, name) {
        proof {
            assert(head@ =~= text@.skip(i as int).subrange(0, name@.len() as int));
        }
        return false;
    }
    proof {
        assert(head@ =~= text@.skip(i as int).subrange(0, name@.len() as int));
    }
    let r = text[i + name.len()] == LPAR;
    proof {
        assert(text@.skip(i as int)[name@.len() as int] == text@[i + name@.len()]);
    }
    r
}

/// The first non-whitespace offset of `text` at or after `i`.
fn scan_ws(text: &[u8], i: usize) -> (r: usize)
    requires
        i <= text@.len(),
    ensures
        i <= r <= text@.len(),
        r - i == ws_count(text@.skip(i as int)),
{
    let mut k: usize = i;
    while k < text.len() && byte_is_ws(text[k])
        invariant
            i <= k <= text@.len(),
            ws_count(text@.skip(i as int)) == ws_count(text@.skip(k as int)) + k - i,
        decreases text@.len() - k,
    {
        proof {
            assert(text@.skip(k as int)[0] == text@[k as int]);
            assert(text@.skip(k as int).drop_first() =~= text@.skip(k + 1));
        }
        k = k + 1;
    }
    proof {
        if k < text.len() {
            assert(text@.skip(k as int)[0] == text@[k as int]);
        }
        assert(ws_count(text@.skip(k as int)) == 0);
    }
    k
}

/// The offset of the first `b` at or after `i`, if any.
pub fn scan_byte(text: &[u8], i: usize, b: u8) -> (r: Option<usize>)
    requires
        i <= text@.len(),
    ensures
        match r {
            Option::Some(p) => i <= p < text@.len() && find_byte(text@.skip(i as int), b)
                == Option::Some(p - i),
            Option::None => find_byte(text@.skip(i as int), b) is None,
        },
{
    let mut k: usize = i;
    while k < text.len() && text[k] != b
        invariant
            i <= k <= text@.len(),
            find_byte(text@.skip(i as int), b) == match find_byte(
                text@.skip(k as int),
                b,
            ) {
                Option::None => Option::<int>::None,
                Option::Some(j) => Option::<int>::Some(j + k - i),
            },
        decreases text@.len() - k,
    {
        proof {
            assert(text@.skip(k as int)[0] == text@[k as int]);
            assert(text@.skip(k as int).drop_first() =~= text@.skip(k + 1));
        }
        k = k + 1;
    }
    if k < text.len() {
        proof {
            assert(text@.skip(k as int)[0] == text@[k as int]);
        }
        Option::Some(k)
    } else {
        proof {
            assert(text@.skip(k as int).len() == 0);
        }
        Option::None
    }
}

/// Match one occurrence of `name` at offset `i` of `text`: the raw blob and
/// the absolute offset at which scanning resumes.
fn head_stmt_at(text: &[u8], i: usize, name: &[u8], mk: &[u8]) -> (r: Option<(Vec<u8>, usize)>)
    requires
        i <= text@.len(),
        mk@ == marker(),
    ensures
        match r {
            Option::Some(pair) => i < pair.1 <= text@.len() && head_stmt(
                text@.skip(i as int),
                name@,
            ) == Option::Some((pair.0@, pair.1 - i)),
            Option::None => head_stmt(text@.skip(i as int), name@) is None,
        },
{
    let ghost suffix = text@.skip(i as int);
    let n = text.len();
    if !name_paren_at(text, i, name) {
        return Option::None;
    }
    proof {
        assert(suffix.len() == n - i);
    }
    let ghost s = suffix.skip(name@.len() + 1int);
    proof {
        assert(suffix.len() == text@.len() - i);
        assert(i + name@.len() + 1 <= text@.len());
    }
    let p0 = i + name.len() + 1;
    proof {
        assert(s =~= text@.skip(p0 as int));
    }
    let a = scan_ws(text, p0);
    let ghost ga = ws_count(s) as int;
    proof {
        assert(ga == a - p0);
    }
    if text.len() - a < mk.len() {
        proof {
            assert(ga + 13 > s.len());
            assert(marker_comma(s) is None);
        }
        return Option::None;
    }
    let head = vstd::slice::slice_subrange(text, a, a + mk.len());
    proof {
        assert(head@ =~= s.subrange(ga, ga + 13));
    }
    if !bytes_eq(head, mk) {
        proof {
            assert(marker_comma(s) is None);
        }
        return Option::None;
    }
    let b = scan_ws(text, a + mk.len());
    proof {
        assert(text@.skip(a + mk@.len()) =~= s.skip(ga + 13));
        assert(b - (a + 13) == ws_count(s.skip(ga + 13)));
    }
    if !(b < text.len() && text[b] == COMMA) {
        proof {
            if ga + 13 + (b - (a + 13)) < s.len() {
                assert(s[ga + 13 + (b - (a + 13))] == text@[b as int]);
            }
            assert(marker_comma(s) is None);
        }
        return Option::None;
    }
    proof {
        assert(s[ga + 13 + (b - (a + 13))] == text@[b as int]);
        assert(marker_comma(s) == Option::Some(ga + 13 + (b - (a + 13)) + 1));
    }
    let k = b + 1;
    let ghost gk = ga + 13 + (b - (a + 13)) + 1;
    proof {
        assert(p0 + gk == k);
        assert(s.skip(gk) =~= text@.skip(k as int));
    }
    match scan_byte(text, k, RPAR) {
        Option::Some(p) => {
            let blob_s = vstd::slice::slice_subrange(text, k, p);
            let blob = vstd::slice::slice_to_vec(blob_s);
            let next = p + 1;
            proof {
                assert(blob@ =~= s.skip(gk).subrange(0, p - k));
                assert(head_stmt(suffix, name@) == Option::Some(
                    (blob@, name@.len() + 1 + gk + (p - k) + 1),
                ));
                assert(i + (name@.len() + 1 + gk + (p - k) + 1) == next);
            }
            Option::Some((blob, next))
        },
        Option::None => {
            proof {
                assert(find_byte(s.skip(gk), RPAR) is None);
                assert(head_stmt(suffix, name@) is None);
            }
            Option::None
        },
    }
}

/// Collect the raw argument blob of every occurrence of `name` in `text`,
/// in text order.
#[verifier::rlimit(60)]
pub fn locate_exec(text: &[u8], name: &[u8]) -> (r: Vec<Vec<u8>>)
    ensures
        r.deep_view() == locate(text@, name@),
{
    let mk = marker_bytes();
    let mut found: Vec<Vec<u8>> = Vec::new();
    let mut i: usize = 0;
    proof {
        assert(text@.skip(0) =~= text@);
    }
    while i < text.len()
        invariant
            0 <= i <= text@.len(),
            mk@ == marker(),
            locate(text@, name@) == found.deep_view().add(locate(text@.skip(i as int), name@)),
        decreases text@.len() - i,
    {
        let ghost suffix = text@.skip(i as int);
        let ghost pre = found.deep_view();
        match head_stmt_at(text, i, name, mk.as_slice()) {
            Option::Some(pair) => {
                let (blob, next) = pair;
                let ghost gb = blob@;
                proof {
                    assert(suffix.skip(next - i) =~= text@.skip(next as int));
                    assert(locate(suffix, name@) == seq![gb].add(
                        locate(text@.skip(next as int), name@),
                    ));
                }
                found.push(blob);
                proof {
                    assert(found.deep_view() =~~= pre.push(gb));
                    assert(pre.add(seq![gb].add(locate(text@.skip(next as int), name@)))
                        =~~= found.deep_view().add(locate(text@.skip(next as int), name@)));
                }
                i = next;
            },
            Option::None => {
                proof {
                    assert(suffix.drop_first() =~= text@.skip(i + 1));
                }
                i = i + 1;
            },
        }
    }
    proof {
        assert(text@.skip(text@.len() as int).len() == 0);
        assert(locate(text@.skip(text@.len() as int), name@) =~~= Seq::<Seq<u8>>::empty());
        assert(found.deep_view().add(Seq::<Seq<u8>>::empty()) =~~= found.deep_view());
    }
    found
}

} // verus!
