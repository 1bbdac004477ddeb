//! Rendering statements to canonical text.
//!
//! A statement is its name, `(`, the marker, a comma, the argument tokens
//! joined by single commas, and `);`. Statements of one weapon file are
//! joined by one blank line. The lemmas here pin down where the delimiters
//! fall in the rendered text; the locator proofs build on them.

use vstd::prelude::*;

use crate::ascii::{extend_from, COMMA, CR, LF, LPAR, QUOTE, RPAR, SEMI};
use crate::locator::{marker, marker_bytes};
use crate::tokenizer::{join_comma, token_clean};

verus! {

/// One statement, ready to render: its name and its argument tokens (the
/// marker excluded).
#[verifier::ext_equal]
pub ghost struct GStmt {
    /// The statement name.
    pub name: Seq<u8>,
    /// The argument tokens after the marker.
    pub args: Seq<Seq<u8>>,
}

/// The blank line between statements.
pub open spec fn sep2() -> Seq<u8> {
    seq![CR, LF, CR, LF]
}

/// A statement rendered: `name(NewWeaponType,` args `);`.
pub open spec fn ser_stmt(name: Seq<u8>, args: Seq<Seq<u8>>) -> Seq<u8> {
    name.add(seq![LPAR]).add(marker()).add(seq![COMMA]).add(join_comma(args)).add(
        seq![RPAR, SEMI],
    )
}

/// A list of statements rendered, joined by blank lines.
pub open spec fn ser_stmts(stmts: Seq<GStmt>) -> Seq<u8>
    decreases stmts.len(),
{
    if stmts.len() == 0 {
        Seq::empty()
    } else if stmts.len() == 1 {
        ser_stmt(stmts[0].name, stmts[0].args)
    } else {
        ser_stmt(stmts[0].name, stmts[0].args).add(sep2()).add(ser_stmts(stmts.drop_first()))
    }
}

/// A field value rendered as a quoted string.
pub open spec fn quoted(s: Seq<u8>) -> Seq<u8> {
    seq![QUOTE].add(s).add(seq![QUOTE])
}

/// Append a quoted copy of `s` to `out`.
pub fn push_quoted(out: &mut Vec<u8>, s: &[u8])
    ensures
        final(out)@ == old(out)@ + quoted(s@),
{
    let ghost pre = out@;
    out.push(QUOTE);
    extend_from(out, s);
    out.push(QUOTE);
    proof {
        assert(out@ =~= pre + quoted(s@));
    }
}

/// Appending one token to a joined list appends a comma and the token.
pub proof fn lemma_join_snoc(toks: Seq<Seq<u8>>, t: Seq<u8>)
    ensures
        join_comma(toks.push(t)) == if toks.len() == 0 {
            t
        } else {
            join_comma(toks).add(seq![COMMA]).add(t)
        },
    decreases toks.len(),
{
    let w = toks.push(t);
    if toks.len() == 0 {
        assert(w.len() == 1);
        assert(join_comma(w) == w[0]);
        assert(w[0] == t);
    } else {
        assert(w.len() >= 2);
        assert(w[0] == toks[0]);
        assert(w.drop_first() =~~= toks.drop_first().push(t));
        lemma_join_snoc(toks.drop_first(), t);
        if toks.len() == 1 {
            assert(join_comma(toks) == toks[0]);
            assert(join_comma(w) == toks[0].add(seq![COMMA]).add(t));
        } else {
            assert(join_comma(w) == toks[0].add(seq![COMMA]).add(
                join_comma(toks.drop_first()).add(seq![COMMA]).add(t),
            ));
            assert(toks[0].add(seq![COMMA]).add(
                join_comma(toks.drop_first()).add(seq![COMMA]).add(t),
            ) =~= join_comma(toks).add(seq![COMMA]).add(t));
        }
    }
}

/// Render a statement from its name and already-rendered argument tokens.
pub fn ser_stmt_exec(name: &[u8], args: &Vec<Vec<u8>>) -> (r: Vec<u8>)
    requires
        args@.len() >= 1,
    ensures
        r@ == ser_stmt(name@, args.deep_view()),
{
    let mut out: Vec<u8> = Vec::new();
    extend_from(&mut out, name);
    out.push(LPAR);
    let mk = marker_bytes();
    extend_from(&mut out, mk.as_slice());
    out.push(COMMA);
    let ghost head = name@.add(seq![LPAR]).add(marker()).add(seq![COMMA]);
    proof {
        assert(out@ =~= head);
        assert(args.deep_view().subrange(0, 1) =~~= seq![args.deep_view()[0]]);
        assert(join_comma(seq![args.deep_view()[0]]) == args.deep_view()[0]);
    }
    extend_from(&mut out, args[0].as_slice());
    proof {
        assert(args.deep_view()[0] =~= args@[0]@);
        assert(out@ =~= head.add(join_comma(args.deep_view().subrange(0, 1))));
    }
    let mut i: usize = 1;
    while i < args.len()
        invariant
            1 <= i <= args@.len(),
            out@ =~= head.add(join_comma(args.deep_view().subrange(0, i as int))),
        decreases args@.len() - i,
    {
        let ghost pre_toks = args.deep_view().subrange(0, i as int);
        out.push(COMMA);
        extend_from(&mut out, args[i].as_slice());
        proof {
            assert(args.deep_view()[i as int] =~= args@[i as int]@);
            assert(args.deep_view().subrange(0, i + 1) =~~= pre_toks.push(
                args.deep_view()[i as int],
            ));
            lemma_join_snoc(pre_toks, args.deep_view()[i as int]);
            assert(out@ =~= head.add(join_comma(args.deep_view().subrange(0, i + 1))));
        }
        i = i + 1;
    }
    out.push(RPAR);
    out.push(SEMI);
    proof {
        assert(args.deep_view().subrange(0, args.deep_view().len() as int) =~~= args.deep_view());
        assert(out@ =~= ser_stmt(name@, args.deep_view()));
    }
    out
}

/// The joined argument tokens of clean tokens contain no parenthesis.
pub proof fn lemma_join_no_paren(toks: Seq<Seq<u8>>)
    requires
        forall|k: int| 0 <= k < toks.len() ==> token_clean(#[trigger] toks[k]),
    ensures
        forall|i: int|
            0 <= i < join_comma(toks).len() ==> #[trigger] join_comma(toks)[i] != LPAR
                && join_comma(toks)[i] != RPAR,
    decreases toks.len(),
{
    if toks.len() == 0 {
    } else if toks.len() == 1 {
        lemma_token_no_paren(toks[0]);
    } else {
        lemma_token_no_paren(toks[0]);
        assert(forall|k: int| 0 <= k < toks.drop_first().len() ==> token_clean(
            #[trigger] toks.drop_first()[k],
        )) by {
            assert(forall|k: int|
                0 <= k < toks.drop_first().len() ==> toks.drop_first()[k] == toks[k + 1]);
        }
        lemma_join_no_paren(toks.drop_first());
        let j = join_comma(toks);
        let t0 = toks[0];
        let rest = join_comma(toks.drop_first());
        assert(forall|i: int| 0 <= i < j.len() ==> j[i] != LPAR && j[i] != RPAR) by {
            assert(forall|i: int| 0 <= i < t0.len() ==> j[i] == t0[i]);
            assert(j[t0.len() as int] == COMMA);
            assert(forall|i: int|
                t0.len() + 1 <= i < j.len() ==> j[i] == rest[i - t0.len() - 1]);
        }
    }
}

/// A clean token contains no parenthesis.
pub proof fn lemma_token_no_paren(t: Seq<u8>)
    requires
        token_clean(t),
    ensures
        forall|i: int| 0 <= i < t.len() ==> #[trigger] t[i] != LPAR && t[i] != RPAR,
{
    if crate::tokenizer::token_neutral(t) {
    } else if crate::tokenizer::token_quoted(t) {
        assert(forall|i: int| 0 <= i < t.len() ==> t[i] != LPAR && t[i] != RPAR) by {
            assert(t[0] == QUOTE && t.last() == QUOTE);
            assert(t[t.len() - 1] == t.last());
        }
    } else {
        assert(forall|i: int| 0 <= i < t.len() ==> t[i] != LPAR && t[i] != RPAR) by {
            assert(t[t.len() - 1] == t.last());
        }
    }
}

/// Where every delimiter of a rendered statement falls: the one `(` is just
/// after the name, the text ends `);`, and its prefix is the name.
pub proof fn lemma_ser_stmt_shape(name: Seq<u8>, args: Seq<Seq<u8>>)
    requires
        crate::names::name_wf(name),
        forall|k: int| 0 <= k < args.len() ==> token_clean(#[trigger] args[k]),
    ensures
        ser_stmt(name, args).len() == name.len() + 17 + join_comma(args).len(),
        ser_stmt(name, args).subrange(0, name.len() as int) == name,
        forall|i: int|
            0 <= i < ser_stmt(name, args).len() ==> ((#[trigger] ser_stmt(name, args)[i] == LPAR)
                <==> i == name.len()),
        ser_stmt(name, args)[ser_stmt(name, args).len() - 1] == SEMI,
        ser_stmt(name, args)[ser_stmt(name, args).len() - 2] == RPAR,
{
    let s = ser_stmt(name, args);
    let j = join_comma(args);
    lemma_join_no_paren(args);
    lemma_marker_no_paren();
    assert(s.subrange(0, name.len() as int) =~= name);
    assert(forall|i: int| 0 <= i < s.len() ==> ((s[i] == LPAR) <==> i == name.len())) by {
        assert(forall|i: int|
            0 <= i < name.len() ==> s[i] == name[i] && crate::names::is_letter(#[trigger] name[i]));
        assert(s[name.len() as int] == LPAR);
        assert(forall|i: int|
            name.len() + 1 <= i < name.len() + 14 ==> s[i] == marker()[i - name.len() - 1]);
        assert(s[name.len() + 14int] == COMMA);
        assert(forall|i: int|
            name.len() + 15 <= i < name.len() + 15 + j.len() ==> s[i] == j[i - name.len() - 15]);
        assert(s[s.len() - 2] == RPAR && s[s.len() - 1] == SEMI);
    }
}

/// Every byte of the marker is a letter; in particular none is a
/// parenthesis or whitespace.
pub proof fn lemma_marker_no_paren()
    ensures
        forall|i: int| 0 <= i < marker().len() ==> crate::names::is_letter(#[trigger] marker()[i]),
        forall|i: int|
            0 <= i < marker().len() ==> #[trigger] marker()[i] != LPAR && marker()[i] != RPAR,
{
    assert(marker()[0] == 78 && marker()[1] == 101 && marker()[2] == 119 && marker()[3] == 87
        && marker()[4] == 101 && marker()[5] == 97 && marker()[6] == 112 && marker()[7] == 111
        && marker()[8] == 110 && marker()[9] == 84 && marker()[10] == 121 && marker()[11] == 112
        && marker()[12] == 101);
    assert(forall|i: int| 0 <= i < 13 ==> crate::names::is_letter(#[trigger] marker()[i])) by {
        assert(marker()[0] == 78 && marker()[1] == 101 && marker()[2] == 119 && marker()[3] == 87
            && marker()[4] == 101 && marker()[5] == 97 && marker()[6] == 112 && marker()[7] == 111
            && marker()[8] == 110 && marker()[9] == 84 && marker()[10] == 121 && marker()[11]
            == 112 && marker()[12] == 101);
    }
}

/// A quoted well-formed string field is a clean token, and cleaning it
/// yields the bare field value.
pub proof fn lemma_quoted_clean(s: Seq<u8>)
    requires
        crate::ascii::is_field_str(s),
    ensures
        crate::tokenizer::token_quoted(quoted(s)),
        token_clean(quoted(s)),
        crate::tokenizer::clean_token(quoted(s)) == s,
{
    let t = quoted(s);
    assert(t[0] == QUOTE && t[t.len() - 1] == QUOTE && t.last() == QUOTE);
    assert(forall|i: int|
        1 <= i < t.len() - 1 ==> #[trigger] t[i] != QUOTE && t[i] != LPAR && t[i] != RPAR) by {
        assert(forall|i: int|
            1 <= i < t.len() - 1 ==> t[i] == s[i - 1] && crate::ascii::is_str_byte(s[i - 1]));
    }
    crate::tokenizer::lemma_clean_quoted(s);
}

/// A fractional literal is a clean token and cleaning leaves it alone.
pub proof fn lemma_lit_clean(s: Seq<u8>)
    requires
        crate::num::is_float_lit(s),
    ensures
        crate::tokenizer::token_neutral(s),
        token_clean(s),
        crate::tokenizer::clean_token(s) == s,
{
    crate::family::lemma_float_bytes_plain(s);
    assert(crate::tokenizer::token_neutral(s)) by {
        assert(forall|i: int|
            0 <= i < s.len() ==> crate::tokenizer::is_neutral_byte(#[trigger] s[i]));
    }
    assert(!crate::ascii::is_ws(s[0]) && !crate::ascii::is_ws(s.last()) && s[0] != QUOTE) by {
        assert(s.last() == s[s.len() - 1]);
    }
    crate::tokenizer::lemma_clean_plain(s);
}

/// A rendered integer is a clean token and cleaning leaves it alone.
pub proof fn lemma_int_clean(v: int)
    requires
        -0x8000_0000 <= v <= 0x7fff_ffff,
    ensures
        crate::tokenizer::token_neutral(crate::num::render_i32(v)),
        token_clean(crate::num::render_i32(v)),
        crate::tokenizer::clean_token(crate::num::render_i32(v)) == crate::num::render_i32(v),
{
    let s = crate::num::render_i32(v);
    if v >= 0 {
        crate::num::lemma_render_nat_val(v);
        assert(forall|i: int| 0 <= i < s.len() ==> crate::ascii::is_digit(#[trigger] s[i]));
    } else {
        crate::num::lemma_render_nat_val(-v);
        let d = crate::num::render_nat(-v);
        assert(s[0] == crate::ascii::MINUS);
        assert(forall|i: int|
            1 <= i < s.len() ==> s[i] == d[i - 1] && crate::ascii::is_digit(d[i - 1]));
    }
    assert(crate::tokenizer::token_neutral(s)) by {
        assert(forall|i: int|
            0 <= i < s.len() ==> crate::tokenizer::is_neutral_byte(#[trigger] s[i]));
    }
    assert(!crate::ascii::is_ws(s[0]) && !crate::ascii::is_ws(s.last()) && s[0] != QUOTE) by {
        assert(s.last() == s[s.len() - 1]);
    }
    crate::tokenizer::lemma_clean_plain(s);
}

} // verus!
