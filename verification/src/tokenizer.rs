//! Depth-aware splitting of a statement's argument blob.
//!
//! An argument list is split on top-level commas only: commas inside a
//! matching `{...}` pair or inside a `"..."` quoted segment do not split.
//! Each raw segment is then trimmed, and a segment wrapped in quotes loses
//! them. Unbalanced braces or quotes are `MalformedArgumentList`.

use vstd::prelude::*;

use crate::ascii::{is_ws, trim, trim_front, trim_back, COMMA, LBRACE, LPAR, QUOTE, RBRACE, RPAR};
use crate::ascii::byte_is_ws;
use crate::ParseError;

verus! {

/// Prepend byte `c` to the first segment of a split result.
pub open spec fn prepend_seg(o: Option<Seq<Seq<u8>>>, c: u8) -> Option<Seq<Seq<u8>>> {
    match o {
        Option::None => Option::None,
        Option::Some(t) => Option::Some(t.update(0, seq![c].add(t[0]))),
    }
}

/// Split `s` into raw segments at top-level commas, starting in brace depth
/// `depth` and quote state `inq`. `None` means the list is unbalanced: a `}`
/// without a matching `{`, an unclosed `{`, or an unclosed quote.
pub open spec fn split_top(s: Seq<u8>, depth: nat, inq: bool) -> Option<Seq<Seq<u8>>>
    decreases s.len(),
{
    if s.len() == 0 {
        if depth == 0 && !inq {
            Option::Some(seq![Seq::<u8>::empty()])
        } else {
            Option::None
        }
    } else {
        let c = s[0];
        let rest = s.drop_first();
        if inq {
            prepend_seg(split_top(rest, depth, c != QUOTE), c)
        } else if c == COMMA && depth == 0 {
            match split_top(rest, 0, false) {
                Option::None => Option::None,
                Option::Some(t) => Option::Some(seq![Seq::<u8>::empty()].add(t)),
            }
        } else if c == QUOTE {
            prepend_seg(split_top(rest, depth, true), c)
        } else if c == LBRACE {
            prepend_seg(split_top(rest, depth + 1, false), c)
        } else if c == RBRACE {
            if depth == 0 {
                Option::None
            } else {
                prepend_seg(split_top(rest, (depth - 1) as nat, false), c)
            }
        } else {
            prepend_seg(split_top(rest, depth, false), c)
        }
    }
}

/// A successful split has at least one segment.
pub proof fn lemma_split_top_nonempty(s: Seq<u8>, depth: nat, inq: bool)
    requires
        split_top(s, depth, inq) is Some,
    ensures
        split_top(s, depth, inq)->Some_0.len() >= 1,
    decreases s.len(),
{
    if s.len() > 0 {
        let c = s[0];
        let rest = s.drop_first();
        if inq {
            lemma_split_top_nonempty(rest, depth, c != QUOTE);
        } else if c == COMMA && depth == 0 {
        } else if c == QUOTE {
            lemma_split_top_nonempty(rest, depth, true);
        } else if c == LBRACE {
            lemma_split_top_nonempty(rest, depth + 1, false);
        } else if c == RBRACE {
            lemma_split_top_nonempty(rest, (depth - 1) as nat, false);
        } else {
            lemma_split_top_nonempty(rest, depth, false);
        }
    }
}

/// A trimmed segment wrapped in quotes loses them; any other segment is
/// returned as trimmed.
pub open spec fn strip_quotes(s: Seq<u8>) -> Seq<u8> {
    if s.len() >= 2 && s[0] == QUOTE && s.last() == QUOTE {
        s.subrange(1, s.len() - 1)
    } else {
        s
    }
}

/// A raw segment becomes a token: trim it, then strip surrounding quotes.
pub open spec fn clean_token(s: Seq<u8>) -> Seq<u8> {
    strip_quotes(trim(s))
}

/// The tokens of an argument blob: its raw segments, each cleaned.
pub open spec fn tokenize_spec(s: Seq<u8>) -> Result<Seq<Seq<u8>>, ParseError> {
    match split_top(s, 0, false) {
        Option::None => Result::Err(ParseError::MalformedArgumentList),
        Option::Some(segs) => Result::Ok(segs.map_values(|t: Seq<u8>| clean_token(t))),
    }
}

/// Glue a partial exec state onto a split of the remaining input.
pub open spec fn glue_segs(done: Seq<Seq<u8>>, cur: Seq<u8>, rest: Option<Seq<Seq<u8>>>) -> Option<
    Seq<Seq<u8>>,
> {
    match rest {
        Option::None => Option::None,
        Option::Some(t) => Option::Some(done.add(seq![cur.add(t[0])]).add(t.drop_first())),
    }
}

/// Split a blob into its raw top-level segments.
fn split_top_exec(s: &[u8]) -> (r: Result<Vec<Vec<u8>>, ParseError>)
    ensures
        match r {
            Result::Ok(segs) => split_top(s@, 0, false) == Option::Some(segs.deep_view()),
            Result::Err(e) => split_top(s@, 0, false) is None && e
                == ParseError::MalformedArgumentList,
        },
{
    let ghost full = split_top(s@, 0, false);
    let mut done: Vec<Vec<u8>> = Vec::new();
    let mut cur: Vec<u8> = Vec::new();
    let mut depth: usize = 0;
    let mut inq: bool = false;
    let mut i: usize = 0;
    proof {
        assert(s@.skip(0) =~= s@);
        if full is Some {
            lemma_split_top_nonempty(s@, 0, false);
            let t = full->Some_0;
            assert(glue_segs(done.deep_view(), cur@, full) == Option::Some(
                Seq::<Seq<u8>>::empty().add(seq![Seq::<u8>::empty().add(t[0])]).add(
                    t.drop_first(),
                ),
            ));
            assert(Seq::<Seq<u8>>::empty().add(seq![Seq::<u8>::empty().add(t[0])]).add(
                t.drop_first(),
            ) =~~= t);
        }
    }
    while i < s.len()
        invariant
            0 <= i <= s@.len(),
            depth <= i,
            full == glue_segs(done.deep_view(), cur@, split_top(s@.skip(i as int), depth as nat, inq)),
        decreases s@.len() - i,
    {
        let c = s[i];
        proof {
            assert(s@.skip(i as int)[0] == c);
            assert(s@.skip(i as int).drop_first() =~= s@.skip(i + 1));
        }
        let ghost pre_done = done.deep_view();
        let ghost pre_cur = cur@;
        if inq {
            let ghost nq = c != QUOTE;
            cur.push(c);
            proof {
                step_glue(pre_done, pre_cur, s@.skip(i + 1), depth as nat, nq, c);
            }
            if c == QUOTE {
                inq = false;
            }
        } else if c == COMMA && depth == 0 {
            proof {
                if split_top(s@.skip(i + 1), 0, false) is Some {
                    let t = split_top(s@.skip(i + 1), 0, false)->Some_0;
                    lemma_split_top_nonempty(s@.skip(i + 1), 0, false);
                    assert(seq![Seq::<u8>::empty()].add(t)[0] =~= Seq::<u8>::empty());
                    assert(seq![Seq::<u8>::empty()].add(t).drop_first() =~= t);
                    assert(pre_done.add(seq![pre_cur.add(Seq::<u8>::empty())]).add(t) =~~= pre_done
                        .add(seq![pre_cur]).add(seq![Seq::<u8>::empty().add(t[0])]).add(
                        t.drop_first(),
                    ));
                }
            }
            done.push(cur);
            cur = Vec::new();
            proof {
                assert(done.deep_view() =~~= pre_done.add(seq![pre_cur]));
            }
        } else if c == QUOTE {
            cur.push(c);
            inq = true;
            proof {
                step_glue(pre_done, pre_cur, s@.skip(i + 1), depth as nat, true, c);
            }
        } else if c == LBRACE {
            cur.push(c);
            depth = depth + 1;
            proof {
                step_glue(pre_done, pre_cur, s@.skip(i + 1), depth as nat, false, c);
            }
        } else if c == RBRACE {
            if depth == 0 {
                return Result::Err(ParseError::MalformedArgumentList);
            }
            cur.push(c);
            depth = depth - 1;
            proof {
                step_glue(pre_done, pre_cur, s@.skip(i + 1), depth as nat, false, c);
            }
        } else {
            cur.push(c);
            proof {
                step_glue(pre_done, pre_cur, s@.skip(i + 1), depth as nat, false, c);
            }
        }
        i = i + 1;
    }
    proof {
        assert(s@.skip(s@.len() as int) =~= Seq::<u8>::empty());
    }
    if depth != 0 || inq {
        return Result::Err(ParseError::MalformedArgumentList);
    }
    let ghost pre_done = done.deep_view();
    let ghost pre_cur = cur@;
    done.push(cur);
    proof {
        assert(pre_done.add(seq![pre_cur.add(Seq::<u8>::empty())]).add(
            seq![Seq::<u8>::empty()].drop_first(),
        ) =~~= pre_done.add(seq![pre_cur]));
        assert(done.deep_view() =~~= pre_done.add(seq![pre_cur]));
    }
    Result::Ok(done)
}

/// One scan step preserves the glue relation, for any non-comma byte.
proof fn step_glue(done: Seq<Seq<u8>>, cur: Seq<u8>, rest: Seq<u8>, d2: nat, q2: bool, c: u8)
    ensures
        glue_segs(done, cur, prepend_seg(split_top(rest, d2, q2), c)) == glue_segs(
            done,
            cur.push(c),
            split_top(rest, d2, q2),
        ),
{
    match split_top(rest, d2, q2) {
        Option::None => {},
        Option::Some(t) => {
            lemma_split_top_nonempty(rest, d2, q2);
            let t2 = t.update(0, seq![c].add(t[0]));
            assert(t2[0] =~= seq![c].add(t[0]));
            assert(t2.drop_first() =~= t.drop_first());
            assert(done.add(seq![cur.add(seq![c].add(t[0]))]).add(t.drop_first()) =~~= done.add(
                seq![cur.push(c).add(t[0])],
            ).add(t.drop_first()));
        },
    }
}

/// Trim and unquote one raw segment.
fn clean_token_exec(seg: &[u8]) -> (r: Vec<u8>)
    ensures
        r@ == clean_token(seg@),
{
    let mut start: usize = 0;
    proof {
        assert(seg@.skip(0) =~= seg@);
    }
    while start < seg.len() && byte_is_ws(seg[start])
        invariant
            0 <= start <= seg@.len(),
            trim_front(seg@) == trim_front(seg@.skip(start as int)),
        decreases seg@.len() - start,
    {
        proof {
            assert(seg@.skip(start as int).drop_first() =~= seg@.skip(start + 1));
        }
        start = start + 1;
    }
    let ghost t = seg@.skip(start as int);
    proof {
        assert(trim_front(t) == t);
    }
    let mut end: usize = seg.len();
    proof {
        assert(t.take(seg@.len() - start) =~= t);
    }
    while end > start && byte_is_ws(seg[end - 1])
        invariant
            start <= end <= seg@.len(),
            trim_back(t) == trim_back(t.take(end - start)),
        decreases end,
    {
        proof {
            let cut = t.take(end - start);
            assert(cut.last() == seg@[end - 1]);
            assert(cut.drop_last() =~= t.take(end - start - 1));
        }
        end = end - 1;
    }
    proof {
        let cut = t.take(end - start);
        if end > start {
            assert(cut.last() == seg@[end - 1]);
        }
        assert(trim_back(cut) == cut);
        assert(trim(seg@) == t.take(end - start));
    }
    let trimmed: &[u8] = vstd::slice::slice_subrange(seg, start, end);
    proof {
        assert(trimmed@ =~= trim(seg@));
    }
    if trimmed.len() >= 2 && trimmed[0] == QUOTE && trimmed[trimmed.len() - 1] == QUOTE {
        let inner = vstd::slice::slice_subrange(trimmed, 1, trimmed.len() - 1);
        let r = vstd::slice::slice_to_vec(inner);
        proof {
            assert(trimmed@.last() == QUOTE);
            assert(r@ =~= clean_token(seg@));
        }
        r
    } else {
        let r = vstd::slice::slice_to_vec(trimmed);
        proof {
            if trimmed@.len() >= 2 && trimmed@[0] == QUOTE {
                assert(trimmed@.last() == trimmed@[trimmed@.len() - 1]);
            }
            assert(r@ =~= clean_token(seg@));
        }
        r
    }
}

/// Split an argument blob on top-level commas and clean each segment.
///
/// Fails with `MalformedArgumentList` exactly when the blob's braces or
/// quotes are unbalanced.
pub fn tokenize(s: &[u8]) -> (r: Result<Vec<Vec<u8>>, ParseError>)
    ensures
        match r {
            Result::Ok(toks) => tokenize_spec(s@) == Result::<Seq<Seq<u8>>, ParseError>::Ok(
                toks.deep_view(),
            ),
            Result::Err(e) => tokenize_spec(s@) == Result::<Seq<Seq<u8>>, ParseError>::Err(e),
        },
{
    let segs = match split_top_exec(s) {
        Result::Ok(v) => v,
        Result::Err(e) => {
            return Result::Err(e);
        },
    };
    let mut toks: Vec<Vec<u8>> = Vec::new();
    let mut i: usize = 0;
    while i < segs.len()
        invariant
            0 <= i <= segs@.len(),
            toks.deep_view() =~~= segs.deep_view().subrange(0, i as int).map_values(
                |t: Seq<u8>| clean_token(t),
            ),
        decreases segs@.len() - i,
    {
        let ghost pre = toks.deep_view();
        let c = clean_token_exec(segs[i].as_slice());
        toks.push(c);
        proof {
            assert(segs.deep_view().subrange(0, i + 1) =~~= segs.deep_view().subrange(
                0,
                i as int,
            ).push(segs.deep_view()[i as int]));
            assert(c.deep_view() =~= c@);
            assert(segs.deep_view()[i as int] =~= segs@[i as int]@);
            assert(toks.deep_view() =~~= pre.push(clean_token(segs.deep_view()[i as int])));
            assert(segs.deep_view().subrange(0, i + 1).map_values(|t: Seq<u8>| clean_token(t))
                =~~= segs.deep_view().subrange(0, i as int).map_values(
                |t: Seq<u8>| clean_token(t),
            ).push(clean_token(segs.deep_view()[i as int])));
        }
        i = i + 1;
    }
    proof {
        assert(segs.deep_view().subrange(0, segs.deep_view().len() as int) =~~= segs.deep_view());
    }
    Result::Ok(toks)
}


/// A byte that no token scanner treats specially: not a comma, quote, brace
/// or parenthesis.
pub open spec fn is_neutral_byte(c: u8) -> bool {
    c != COMMA && c != QUOTE && c != LBRACE && c != RBRACE && c != LPAR && c != RPAR
}

/// A token of neutral bytes only: a number or an identifier.
pub open spec fn token_neutral(t: Seq<u8>) -> bool {
    forall|i: int| 0 <= i < t.len() ==> is_neutral_byte(#[trigger] t[i])
}

/// A quoted token: quotes at both ends, none inside, no parentheses inside.
pub open spec fn token_quoted(t: Seq<u8>) -> bool {
    &&& t.len() >= 2
    &&& t[0] == QUOTE
    &&& t.last() == QUOTE
    &&& forall|i: int|
        1 <= i < t.len() - 1 ==> #[trigger] t[i] != QUOTE && t[i] != LPAR && t[i] != RPAR
}

/// A braced token (an armor-family entry): braces at both ends, and inside
/// neither quotes, braces nor parentheses.
pub open spec fn token_braced(t: Seq<u8>) -> bool {
    &&& t.len() >= 2
    &&& t[0] == LBRACE
    &&& t.last() == RBRACE
    &&& forall|i: int|
        1 <= i < t.len() - 1 ==> #[trigger] t[i] != QUOTE && t[i] != LBRACE && t[i] != RBRACE
            && t[i] != LPAR && t[i] != RPAR
}

/// A token the splitter passes through unchanged and the locator never
/// mistakes for statement structure.
pub open spec fn token_clean(t: Seq<u8>) -> bool {
    token_neutral(t) || token_quoted(t) || token_braced(t)
}

/// Prepend `p` to the first segment of a split result.
pub open spec fn prepend_all(p: Seq<u8>, o: Option<Seq<Seq<u8>>>) -> Option<Seq<Seq<u8>>> {
    match o {
        Option::None => Option::None,
        Option::Some(t) => Option::Some(t.update(0, p.add(t[0]))),
    }
}

/// The canonical argument list: tokens joined by single commas.
pub open spec fn join_comma(toks: Seq<Seq<u8>>) -> Seq<u8>
    decreases toks.len(),
{
    if toks.len() == 0 {
        Seq::empty()
    } else if toks.len() == 1 {
        toks[0]
    } else {
        toks[0].add(seq![COMMA]).add(join_comma(toks.drop_first()))
    }
}

/// Prepending one byte then a prefix is prepending the extended prefix.
proof fn lemma_prepend_prepend(c: u8, p: Seq<u8>, o: Option<Seq<Seq<u8>>>)
    requires
        o is Some ==> o->Some_0.len() >= 1,
    ensures
        prepend_seg(prepend_all(p, o), c) == prepend_all(seq![c].add(p), o),
{
    match o {
        Option::None => {},
        Option::Some(t) => {
            let t1 = t.update(0, p.add(t[0]));
            assert(t1.update(0, seq![c].add(t1[0])) =~~= t.update(0, seq![c].add(p).add(t[0])));
        },
    }
}

/// A run of neutral bytes passes through the splitter into the first segment.
proof fn lemma_split_neutral(t: Seq<u8>, b: Seq<u8>)
    requires
        token_neutral(t),
    ensures
        split_top(t.add(b), 0, false) == prepend_all(t, split_top(b, 0, false)),
    decreases t.len(),
{
    if t.len() == 0 {
        assert(t.add(b) =~= b);
        match split_top(b, 0, false) {
            Option::None => {},
            Option::Some(sb) => {
                lemma_split_top_nonempty(b, 0, false);
                assert(sb.update(0, t.add(sb[0])) =~~= sb);
            },
        }
    } else {
        let c = t[0];
        let td = t.drop_first();
        assert(is_neutral_byte(c));
        assert(forall|i: int| 0 <= i < td.len() ==> td[i] == t[i + 1]);
        lemma_split_neutral(td, b);
        assert(t.add(b).drop_first() =~= td.add(b));
        if split_top(b, 0, false) is Some {
            lemma_split_top_nonempty(b, 0, false);
        }
        lemma_prepend_prepend(c, td, split_top(b, 0, false));
        assert(seq![c].add(td) =~= t);
    }
}

/// Inside a quote, every byte up to the closing quote joins the first
/// segment, whatever it is.
proof fn lemma_split_in_quote(s: Seq<u8>, b: Seq<u8>)
    requires
        forall|i: int| 0 <= i < s.len() ==> #[trigger] s[i] != QUOTE,
    ensures
        split_top(s.add(seq![QUOTE]).add(b), 0, true) == prepend_all(
            s.add(seq![QUOTE]),
            split_top(b, 0, false),
        ),
    decreases s.len(),
{
    if s.len() == 0 {
        let w = s.add(seq![QUOTE]).add(b);
        assert(w[0] == QUOTE);
        assert(w.drop_first() =~= b);
        assert(s.add(seq![QUOTE]) =~= seq![QUOTE]);
        if split_top(b, 0, false) is Some {
            lemma_split_top_nonempty(b, 0, false);
        }
    } else {
        let c = s[0];
        let sd = s.drop_first();
        assert(forall|i: int| 0 <= i < sd.len() ==> sd[i] == s[i + 1]);
        lemma_split_in_quote(sd, b);
        let w = s.add(seq![QUOTE]).add(b);
        assert(w[0] == c && c != QUOTE);
        assert(w.drop_first() =~= sd.add(seq![QUOTE]).add(b));
        if split_top(b, 0, false) is Some {
            lemma_split_top_nonempty(b, 0, false);
        }
        lemma_prepend_prepend(c, sd.add(seq![QUOTE]), split_top(b, 0, false));
        assert(seq![c].add(sd.add(seq![QUOTE])) =~= s.add(seq![QUOTE]));
    }
}

/// A quoted token passes through the splitter into the first segment.
proof fn lemma_split_quoted(t: Seq<u8>, b: Seq<u8>)
    requires
        token_quoted(t),
    ensures
        split_top(t.add(b), 0, false) == prepend_all(t, split_top(b, 0, false)),
{
    let mid = t.subrange(1, t.len() - 1);
    let w = t.add(b);
    assert(w[0] == QUOTE);
    assert(w.drop_first() =~= mid.add(seq![QUOTE]).add(b));
    lemma_split_in_quote(mid, b);
    if split_top(b, 0, false) is Some {
        lemma_split_top_nonempty(b, 0, false);
    }
    lemma_prepend_prepend(QUOTE, mid.add(seq![QUOTE]), split_top(b, 0, false));
    assert(seq![QUOTE].add(mid.add(seq![QUOTE])) =~= t);
}

/// Inside one brace pair, every byte up to the closing brace joins the first
/// segment; commas there do not split.
proof fn lemma_split_in_brace(s: Seq<u8>, b: Seq<u8>)
    requires
        forall|i: int|
            0 <= i < s.len() ==> #[trigger] s[i] != QUOTE && s[i] != LBRACE && s[i] != RBRACE,
    ensures
        split_top(s.add(seq![RBRACE]).add(b), 1, false) == prepend_all(
            s.add(seq![RBRACE]),
            split_top(b, 0, false),
        ),
    decreases s.len(),
{
    if s.len() == 0 {
        let w = s.add(seq![RBRACE]).add(b);
        assert(w[0] == RBRACE);
        assert(w.drop_first() =~= b);
        assert(s.add(seq![RBRACE]) =~= seq![RBRACE]);
        if split_top(b, 0, false) is Some {
            lemma_split_top_nonempty(b, 0, false);
        }
    } else {
        let c = s[0];
        let sd = s.drop_first();
        assert(forall|i: int| 0 <= i < sd.len() ==> sd[i] == s[i + 1]);
        lemma_split_in_brace(sd, b);
        let w = s.add(seq![RBRACE]).add(b);
        assert(w[0] == c);
        assert(w.drop_first() =~= sd.add(seq![RBRACE]).add(b));
        if split_top(b, 0, false) is Some {
            lemma_split_top_nonempty(b, 0, false);
        }
        lemma_prepend_prepend(c, sd.add(seq![RBRACE]), split_top(b, 0, false));
        assert(seq![c].add(sd.add(seq![RBRACE])) =~= s.add(seq![RBRACE]));
    }
}

/// A braced token passes through the splitter into the first segment.
proof fn lemma_split_braced(t: Seq<u8>, b: Seq<u8>)
    requires
        token_braced(t),
    ensures
        split_top(t.add(b), 0, false) == prepend_all(t, split_top(b, 0, false)),
{
    let mid = t.subrange(1, t.len() - 1);
    let w = t.add(b);
    assert(w[0] == LBRACE);
    assert(w.drop_first() =~= mid.add(seq![RBRACE]).add(b));
    lemma_split_in_brace(mid, b);
    if split_top(b, 0, false) is Some {
        lemma_split_top_nonempty(b, 0, false);
    }
    lemma_prepend_prepend(LBRACE, mid.add(seq![RBRACE]), split_top(b, 0, false));
    assert(seq![LBRACE].add(mid.add(seq![RBRACE])) =~= t);
}

/// Any clean token passes through the splitter into the first segment.
pub proof fn lemma_split_token(t: Seq<u8>, b: Seq<u8>)
    requires
        token_clean(t),
    ensures
        split_top(t.add(b), 0, false) == prepend_all(t, split_top(b, 0, false)),
{
    if token_neutral(t) {
        lemma_split_neutral(t, b);
    } else if token_quoted(t) {
        lemma_split_quoted(t, b);
    } else {
        lemma_split_braced(t, b);
    }
}

/// Clean tokens joined by commas split back into exactly those tokens.
pub proof fn lemma_split_join(toks: Seq<Seq<u8>>)
    requires
        toks.len() >= 1,
        forall|i: int| 0 <= i < toks.len() ==> token_clean(#[trigger] toks[i]),
    ensures
        split_top(join_comma(toks), 0, false) == Option::Some(toks),
    decreases toks.len(),
{
    if toks.len() == 1 {
        let t = toks[0];
        lemma_split_token(t, Seq::empty());
        assert(t.add(Seq::<u8>::empty()) =~= t);
        assert(join_comma(toks) == t);
        assert(split_top(Seq::<u8>::empty(), 0, false) == Option::Some(seq![Seq::<u8>::empty()]));
        assert(seq![Seq::<u8>::empty()].update(0, t.add(Seq::<u8>::empty())) =~~= toks);
    } else {
        let t = toks[0];
        let rest = toks.drop_first();
        assert(forall|i: int| 0 <= i < rest.len() ==> rest[i] == toks[i + 1]);
        lemma_split_join(rest);
        let tail = seq![COMMA].add(join_comma(rest));
        lemma_split_token(t, tail);
        assert(join_comma(toks) == t.add(tail));
        assert(tail[0] == COMMA);
        assert(tail.drop_first() =~= join_comma(rest));
        assert(split_top(tail, 0, false) == Option::Some(seq![Seq::<u8>::empty()].add(rest)));
        let glued = seq![Seq::<u8>::empty()].add(rest);
        assert(glued[0] =~= Seq::<u8>::empty());
        assert(glued.update(0, t.add(glued[0])) =~~= toks);
    }
}

/// Cleaning leaves a token alone when its ends carry no whitespace and it is
/// not wrapped in quotes.
pub proof fn lemma_clean_plain(t: Seq<u8>)
    requires
        t.len() > 0,
        !is_ws(t[0]),
        !is_ws(t.last()),
        !(t.len() >= 2 && t[0] == QUOTE && t.last() == QUOTE),
    ensures
        clean_token(t) == t,
{
    crate::ascii::lemma_trim_clean(t);
}

/// Cleaning a quote-wrapped token yields its inside.
pub proof fn lemma_clean_quoted(s: Seq<u8>)
    ensures
        clean_token(seq![QUOTE].add(s).add(seq![QUOTE])) == s,
{
    let t = seq![QUOTE].add(s).add(seq![QUOTE]);
    assert(t[0] == QUOTE && t.last() == QUOTE && t.len() >= 2);
    assert(!is_ws(QUOTE));
    crate::ascii::lemma_trim_clean(t);
    assert(strip_quotes(t) =~= s);
}

} // verus!
