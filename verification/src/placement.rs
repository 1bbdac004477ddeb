//! Where the locator finds statements in rendered text.
//!
//! A rendered weapon file is a list of statements joined by blank lines.
//! These lemmas show that locating a statement name in such text yields
//! exactly the argument blobs of the statements carrying that name, in
//! order: a match at a statement's head succeeds, and no other position
//! matches, because a statement's single `(` sits right after its name and
//! no name is a suffix of another.

use vstd::prelude::*;

use crate::ascii::{CR, LF, LPAR, RPAR, SEMI};
use crate::locator::{find_byte, head_stmt, locate, marker, marker_comma, ws_count};
use crate::names::{is_letter, is_suffix_of, name_wf};
use crate::ser::{ser_stmt, ser_stmts, sep2, GStmt};
use crate::tokenizer::{join_comma, token_clean};

verus! {

/// A first occurrence seen directly determines `find_byte`.
pub proof fn lemma_find_byte_at(s: Seq<u8>, b: u8, j: int)
    requires
        0 <= j < s.len(),
        s[j] == b,
        forall|i: int| 0 <= i < j ==> s[i] != b,
    ensures
        find_byte(s, b) == Option::Some(j),
    decreases j,
{
    if j > 0 {
        assert(forall|i: int| 0 <= i < s.drop_first().len() ==> s.drop_first()[i] == s[i + 1]);
        lemma_find_byte_at(s.drop_first(), b, j - 1);
    }
}

/// At the head of a rendered statement, the locator matches and takes
/// exactly the joined argument tokens as the blob, resuming at the `;`.
pub proof fn lemma_head_of_ser(name: Seq<u8>, args: Seq<Seq<u8>>, tail: Seq<u8>)
    requires
        name_wf(name),
        args.len() >= 1,
        forall|k: int| 0 <= k < args.len() ==> token_clean(#[trigger] args[k]),
    ensures
        head_stmt(ser_stmt(name, args).add(tail), name) == Option::Some(
            (join_comma(args), ser_stmt(name, args).len() - 1),
        ),
{
    let stext = ser_stmt(name, args);
    let text = stext.add(tail);
    let j = join_comma(args);
    crate::ser::lemma_ser_stmt_shape(name, args);
    assert(text.subrange(0, name.len() as int) =~= name);
    assert(text[name.len() as int] == LPAR);
    assert(text.len() > name.len());
    let s = text.skip(name.len() + 1int);
    assert(s =~= marker().add(seq![crate::ascii::COMMA]).add(j).add(seq![RPAR, SEMI]).add(tail));
    assert(s[0] == 78 && !crate::ascii::is_ws(78));
    assert(ws_count(s) == 0);
    assert(s.subrange(0, 13) =~= marker());
    let s13 = s.skip(13);
    assert(s13[0] == crate::ascii::COMMA) by {
        assert(s[13] == crate::ascii::COMMA);
    }
    assert(ws_count(s13) == 0) by {
        assert(!crate::ascii::is_ws(crate::ascii::COMMA));
    }
    assert(marker_comma(s) == Option::Some(14int)) by {
        assert(s[13] == crate::ascii::COMMA);
    }
    let rest = s.skip(14);
    assert(rest =~= j.add(seq![RPAR, SEMI]).add(tail));
    crate::ser::lemma_join_no_paren(args);
    assert(rest[j.len() as int] == RPAR);
    assert(forall|i: int| 0 <= i < j.len() ==> rest[i] == j[i] && j[i] != RPAR);
    lemma_find_byte_at(rest, RPAR, j.len() as int);
    assert(rest.subrange(0, j.len() as int) =~= j);
    assert(name.len() + 1 + 14 + j.len() + 1 == stext.len() - 1);
}

/// If no position below `n` matches, locating past `n` is locating from `n`.
pub proof fn lemma_skip_prefix(text: Seq<u8>, name: Seq<u8>, n: int)
    requires
        0 <= n <= text.len(),
        forall|p: int| 0 <= p < n ==> head_stmt(#[trigger] text.skip(p), name) is None,
    ensures
        locate(text, name) == locate(text.skip(n), name),
    decreases n,
{
    if n > 0 {
        assert(head_stmt(text, name) is None) by {
            assert(text.skip(0) =~= text);
        }
        let t1 = text.drop_first();
        assert(t1 =~= text.skip(1));
        assert(forall|p: int| 0 <= p < n - 1 ==> head_stmt(#[trigger] t1.skip(p), name) is None)
            by {
            assert(forall|p: int| 0 <= p < n - 1 ==> t1.skip(p) =~= text.skip(p + 1));
        }
        lemma_skip_prefix(t1, name, n - 1);
        assert(t1.skip(n - 1) =~= text.skip(n));
    } else {
        assert(text.skip(0) =~= text);
    }
}

/// A position whose byte is a terminator or newline never starts a match.
pub proof fn lemma_no_match_ctrl(text: Seq<u8>, name: Seq<u8>, n: int)
    requires
        name_wf(name),
        0 <= n <= text.len(),
        forall|p: int| 0 <= p < n ==> #[trigger] text[p] == SEMI || text[p] == CR || text[p] == LF,
    ensures
        forall|p: int| 0 <= p < n ==> head_stmt(#[trigger] text.skip(p), name) is None,
{
    assert forall|p: int| 0 <= p < n implies head_stmt(#[trigger] text.skip(p), name) is None by {
        let t = text.skip(p);
        if t.len() > name.len() && t.subrange(0, name.len() as int) == name && t[name.len() as int]
            == LPAR {
            assert(t.subrange(0, name.len() as int)[0] == t[0]);
            assert(name[0] == text[p]);
            assert(is_letter(name[0]));
            assert(!is_letter(SEMI) && !is_letter(CR) && !is_letter(LF));
            assert(false);
        }
    }
}

/// No position inside a statement of a different name matches: its one `(`
/// sits after its own name, which `name` does not end, and a match reaching
/// past the statement would have to take its `;` for a letter.
pub proof fn lemma_no_match_in_other(
    name: Seq<u8>,
    name2: Seq<u8>,
    args2: Seq<Seq<u8>>,
    tail: Seq<u8>,
)
    requires
        name_wf(name),
        name_wf(name2),
        !is_suffix_of(name, name2),
        args2.len() >= 1,
        forall|k: int| 0 <= k < args2.len() ==> token_clean(#[trigger] args2[k]),
    ensures
        forall|p: int|
            0 <= p < ser_stmt(name2, args2).len() ==> head_stmt(
                #[trigger] ser_stmt(name2, args2).add(tail).skip(p),
                name,
            ) is None,
{
    let stext = ser_stmt(name2, args2);
    let text = stext.add(tail);
    let len2 = stext.len() as int;
    crate::ser::lemma_ser_stmt_shape(name2, args2);
    assert forall|p: int| 0 <= p < len2 implies head_stmt(#[trigger] text.skip(p), name) is None
        by {
        let t = text.skip(p);
        if t.len() > name.len() && t.subrange(0, name.len() as int) == name && t[name.len() as int]
            == LPAR {
            assert(forall|q: int| 0 <= q < name.len() ==> name[q] == text[p + q]) by {
                assert(forall|q: int|
                    0 <= q < name.len() ==> t.subrange(0, name.len() as int)[q] == t[q]);
            }
            let lp = p + name.len();
            assert(text[lp] == LPAR);
            if lp < len2 {
                assert(stext[lp] == LPAR);
                assert(lp == name2.len());
                assert(name.len() <= name2.len());
                assert(name2.subrange(name2.len() - name.len(), name2.len() as int) =~= name) by {
                    assert(forall|q: int|
                        0 <= q < name.len() ==> name2.subrange(
                            name2.len() - name.len(),
                            name2.len() as int,
                        )[q] == #[trigger] name2[p + q] && stext[p + q] == name2[p + q] && text[p
                            + q] == stext[p + q]);
                }
                assert(is_suffix_of(name, name2));
                assert(false);
            } else {
                let si = len2 - 1 - p;
                assert(0 <= si < name.len());
                assert(text[len2 - 1] == stext[len2 - 1]);
                assert(name[si] == SEMI);
                assert(is_letter(name[si]));
                assert(false);
            }
        }
    }
}

/// The blobs the locator owes for `name` over a statement list: the joined
/// argument tokens of each statement carrying that name, in list order.
pub open spec fn blobs_of(stmts: Seq<GStmt>, name: Seq<u8>) -> Seq<Seq<u8>>
    decreases stmts.len(),
{
    if stmts.len() == 0 {
        seq![]
    } else if stmts[0].name == name {
        seq![join_comma(stmts[0].args)].add(blobs_of(stmts.drop_first(), name))
    } else {
        blobs_of(stmts.drop_first(), name)
    }
}

/// A statement list the placement lemmas apply to: usable names, at least
/// one argument each, clean tokens, and no foreign name that `name` ends.
pub open spec fn stmts_wf(stmts: Seq<GStmt>, name: Seq<u8>) -> bool {
    forall|k: int|
        0 <= k < stmts.len() ==> {
            &&& name_wf((#[trigger] stmts[k]).name)
            &&& stmts[k].args.len() >= 1
            &&& (forall|j: int| 0 <= j < stmts[k].args.len() ==> token_clean(#[trigger] stmts[k].args[j]))
            &&& (stmts[k].name == name || !is_suffix_of(name, stmts[k].name))
        }
}

/// Locating `name` in a rendered statement list yields exactly the blobs of
/// the statements named `name`, in order.
#[verifier::rlimit(80)]
pub proof fn lemma_locate_stmts(stmts: Seq<GStmt>, name: Seq<u8>)
    requires
        name_wf(name),
        stmts_wf(stmts, name),
    ensures
        locate(ser_stmts(stmts), name) == blobs_of(stmts, name),
    decreases stmts.len(),
{
    if stmts.len() == 0 {
        assert(locate(Seq::<u8>::empty(), name) =~~= Seq::<Seq<u8>>::empty());
    } else {
        let s0 = stmts[0];
        let stext = ser_stmt(s0.name, s0.args);
        let len0 = stext.len() as int;
        let rest = stmts.drop_first();
        assert(forall|k: int| 0 <= k < rest.len() ==> rest[k] == stmts[k + 1]);
        let tail: Seq<u8> = if stmts.len() == 1 {
            Seq::empty()
        } else {
            sep2().add(ser_stmts(rest))
        };
        let text = ser_stmts(stmts);
        assert(text =~= stext.add(tail));
        crate::ser::lemma_ser_stmt_shape(s0.name, s0.args);
        if s0.name == name {
            lemma_head_of_ser(name, s0.args, tail);
            assert(head_stmt(text, name) == Option::Some((join_comma(s0.args), len0 - 1)));
            assert(locate(text, name) == seq![join_comma(s0.args)].add(
                locate(text.skip(len0 - 1), name),
            ));
            let after = text.skip(len0 - 1);
            let ctrl = if stmts.len() == 1 {
                1int
            } else {
                5int
            };
            assert(forall|p: int|
                0 <= p < ctrl ==> #[trigger] after[p] == SEMI || after[p] == CR || after[p]
                    == LF) by {
                assert(after[0] == stext[len0 - 1]);
                if stmts.len() > 1 {
                    assert(after[1] == tail[0] && after[2] == tail[1] && after[3] == tail[2]
                        && after[4] == tail[3]);
                }
            }
            lemma_no_match_ctrl(after, name, ctrl);
            lemma_skip_prefix(after, name, ctrl);
            assert(after.skip(ctrl) =~= if stmts.len() == 1 {
                Seq::<u8>::empty()
            } else {
                ser_stmts(rest)
            });
            lemma_locate_stmts(rest, name);
            if stmts.len() == 1 {
                assert(locate(Seq::<u8>::empty(), name) =~~= Seq::<Seq<u8>>::empty());
                assert(rest.len() == 0);
            }
            assert(locate(text, name) =~~= blobs_of(stmts, name));
        } else {
            lemma_no_match_in_other(name, s0.name, s0.args, tail);
            let ctrl = if stmts.len() == 1 {
                len0
            } else {
                len0 + 4
            };
            assert(forall|p: int|
                len0 <= p < ctrl ==> #[trigger] text[p] == SEMI || text[p] == CR || text[p]
                    == LF) by {
                if stmts.len() > 1 {
                    assert(text[len0] == tail[0] && text[len0 + 1] == tail[1] && text[len0 + 2]
                        == tail[2] && text[len0 + 3] == tail[3]);
                }
            }
            assert(forall|p: int|
                0 <= p < ctrl ==> head_stmt(#[trigger] text.skip(p), name) is None) by {
                assert forall|p: int|
                    len0 <= p < ctrl implies head_stmt(#[trigger] text.skip(p), name) is None by {
                    let t = text.skip(p);
                    if t.len() > name.len() && t.subrange(0, name.len() as int) == name && t[name.len() as int]
                        == LPAR {
                        assert(t.subrange(0, name.len() as int)[0] == t[0]);
                        assert(name[0] == text[p]);
                        assert(is_letter(name[0]));
                        assert(!is_letter(SEMI) && !is_letter(CR) && !is_letter(LF));
                        assert(false);
                    }
                }
            }
            lemma_skip_prefix(text, name, ctrl);
            assert(text.skip(ctrl) =~= if stmts.len() == 1 {
                Seq::<u8>::empty()
            } else {
                ser_stmts(rest)
            });
            lemma_locate_stmts(rest, name);
            if stmts.len() == 1 {
                assert(locate(Seq::<u8>::empty(), name) =~~= Seq::<Seq<u8>>::empty());
                assert(rest.len() == 0);
            }
            assert(locate(text, name) =~~= blobs_of(stmts, name));
        }
    }
}


/// Blobs over a concatenated statement list decompose.
pub proof fn lemma_blobs_concat(s1: Seq<GStmt>, s2: Seq<GStmt>, name: Seq<u8>)
    ensures
        blobs_of(s1.add(s2), name) == blobs_of(s1, name).add(blobs_of(s2, name)),
    decreases s1.len(),
{
    if s1.len() == 0 {
        assert(s1.add(s2) =~~= s2);
        assert(blobs_of(s1, name).add(blobs_of(s2, name)) =~~= blobs_of(s2, name));
    } else {
        assert(s1.add(s2).drop_first() =~~= s1.drop_first().add(s2));
        lemma_blobs_concat(s1.drop_first(), s2, name);
        assert(s1.add(s2)[0] == s1[0]);
        if s1[0].name == name {
            assert(blobs_of(s1.add(s2), name) =~~= blobs_of(s1, name).add(blobs_of(s2, name)));
        } else {
            assert(blobs_of(s1.add(s2), name) =~~= blobs_of(s1, name).add(blobs_of(s2, name)));
        }
    }
}

/// A statement list with no statement named `name` owes no blobs.
pub proof fn lemma_blobs_none(s: Seq<GStmt>, name: Seq<u8>)
    requires
        forall|k: int| 0 <= k < s.len() ==> (#[trigger] s[k]).name != name,
    ensures
        blobs_of(s, name) == Seq::<Seq<u8>>::empty(),
    decreases s.len(),
{
    if s.len() > 0 {
        assert(forall|k: int| 0 <= k < s.drop_first().len() ==> s.drop_first()[k] == s[k + 1]);
        lemma_blobs_none(s.drop_first(), name);
    }
}

/// A statement list whose every statement is named `name` owes the joined
/// arguments of each, in order.
pub proof fn lemma_blobs_all(s: Seq<GStmt>, name: Seq<u8>)
    requires
        forall|k: int| 0 <= k < s.len() ==> (#[trigger] s[k]).name == name,
    ensures
        blobs_of(s, name) == s.map_values(|g: GStmt| join_comma(g.args)),
    decreases s.len(),
{
    if s.len() == 0 {
        assert(blobs_of(s, name) =~~= s.map_values(|g: GStmt| join_comma(g.args)));
    } else {
        assert(forall|k: int| 0 <= k < s.drop_first().len() ==> s.drop_first()[k] == s[k + 1]);
        lemma_blobs_all(s.drop_first(), name);
        assert(s.drop_first().map_values(|g: GStmt| join_comma(g.args)) =~~= s.map_values(
            |g: GStmt| join_comma(g.args),
        ).drop_first());
        assert(blobs_of(s, name) =~~= s.map_values(|g: GStmt| join_comma(g.args)));
    }
}

} // verus!
