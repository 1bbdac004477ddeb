//! The round-trip law: serializing a well-formed weapon file and parsing
//! the result recovers the same aggregate, with the weapon's reconciled
//! scalars back at their parse-time defaults — exactly the state in which
//! the original text's parse delivered it. Together with the reconciler's
//! own law this says that source text and canonical text carry the same
//! statements with the same argument values.

use vstd::prelude::*;

use crate::locator::locate;
use crate::names::{acc_name, angles_name, is_suffix_of, misc_name, name_wf, pen_name,
    result_name, sound_name, start_name};
use crate::names::{lemma_names_no_suffix, lemma_names_wf};
use crate::placement::{blobs_of, lemma_blobs_all, lemma_blobs_concat, lemma_blobs_none,
    lemma_locate_stmts, stmts_wf};
use crate::ser::{ser_stmts, GStmt};
use crate::tokenizer::{clean_token, join_comma, lemma_split_join, token_clean, tokenize_spec};
use crate::weapon::{map_weapon, weapon_tokens, WeaponV};
use crate::weapon_accuracy::{acc_tokens, lemma_acc_round_trip};
use crate::weapon_angles::{angles_tokens, lemma_angles_round_trip};
use crate::weapon_misc::{misc_tokens, lemma_misc_round_trip};
use crate::weapon_penetration::{lemma_pen_round_trip, pen_tokens};
use crate::weapon_result::{lemma_result_round_trip, map_result, result_tokens, WeaponResultV};
use crate::weapon_turret_sound::{lemma_sound_round_trip, sound_tokens};
use crate::wepn_file::{file_stmts, parse_results, parse_spec, ser_file_spec, WeaponFileV};
use crate::ParseError;

verus! {

/// One of the grammar's seven statement names.
pub open spec fn is_stmt_name(n: Seq<u8>) -> bool {
    n == start_name() || n == result_name() || n == pen_name() || n == acc_name() || n
        == angles_name() || n == misc_name() || n == sound_name()
}

/// A weapon file every field of which its statement positions can carry,
/// owned throughout by the weapon named `name`, with the results numbered
/// in order.
pub open spec fn wf_file(x: WeaponFileV, name: Seq<u8>) -> bool {
    &&& x.weapon.wf()
    &&& x.weapon.name == name
    &&& forall|i: int|
        0 <= i < x.weapon_results.len() ==> {
            &&& (#[trigger] x.weapon_results[i]).wf()
            &&& x.weapon_results[i].weapon_name == name
            &&& x.weapon_results[i].position == i
        }
    &&& x.weapon_penetration.wf(name)
    &&& x.weapon_accuracy.wf(name)
    &&& match x.weapon_angles {
        Option::Some(a) => a.wf() && a.weapon_name == name,
        Option::None => true,
    }
    &&& match x.weapon_misc {
        Option::Some(m) => m.wf() && m.weapon_name == name,
        Option::None => true,
    }
    &&& match x.weapon_turret_sound {
        Option::Some(s) => s.wf() && s.weapon_name == name,
        Option::None => true,
    }
}

/// Every statement of a well-formed file has a grammar name, at least one
/// argument, and clean tokens.
#[verifier::rlimit(100)]
proof fn lemma_file_stmts_parts(name: Seq<u8>, x: WeaponFileV)
    requires
        wf_file(x, name),
    ensures
        forall|k: int|
            0 <= k < file_stmts(x).len() ==> {
                &&& is_stmt_name((#[trigger] file_stmts(x)[k]).name)
                &&& name_wf(file_stmts(x)[k].name)
                &&& file_stmts(x)[k].args.len() >= 1
                &&& (forall|j: int|
                    0 <= j < file_stmts(x)[k].args.len() ==> token_clean(
                        #[trigger] file_stmts(x)[k].args[j],
                    ))
            },
{
    lemma_names_wf();
    crate::weapon::lemma_weapon_round_trip(x.weapon);
    lemma_pen_round_trip(name, x.weapon_penetration);
    lemma_acc_round_trip(name, x.weapon_accuracy);
    let stmts = file_stmts(x);
    let rpart = x.weapon_results.map_values(
        |r: WeaponResultV| GStmt { name: result_name(), args: result_tokens(r) },
    );
    assert forall|k: int| 0 <= k < stmts.len() implies {
        &&& is_stmt_name((#[trigger] stmts[k]).name)
        &&& name_wf(stmts[k].name)
        &&& stmts[k].args.len() >= 1
        &&& (forall|j: int|
            0 <= j < stmts[k].args.len() ==> token_clean(#[trigger] stmts[k].args[j]))
    } by {
        if 1 <= k < 1 + rpart.len() {
            let r = x.weapon_results[k - 1];
            lemma_result_round_trip(r);
            assert(stmts[k] == rpart[k - 1]);
            assert(stmts[k].args == result_tokens(r));
        } else if k >= 1 + rpart.len() {
            match x.weapon_angles {
                Option::Some(a) => {
                    lemma_angles_round_trip(a);
                },
                Option::None => {},
            }
            match x.weapon_misc {
                Option::Some(m) => {
                    lemma_misc_round_trip(m);
                },
                Option::None => {},
            }
            match x.weapon_turret_sound {
                Option::Some(s) => {
                    lemma_sound_round_trip(s);
                },
                Option::None => {},
            }
        }
    }
}

/// The rendered statement list of a well-formed file satisfies the
/// placement lemma's conditions for any grammar name.
proof fn lemma_file_stmts_wf(name: Seq<u8>, x: WeaponFileV, target: Seq<u8>)
    requires
        wf_file(x, name),
        is_stmt_name(target),
    ensures
        name_wf(target),
        stmts_wf(file_stmts(x), target),
{
    lemma_names_wf();
    lemma_names_no_suffix();
    lemma_file_stmts_parts(name, x);
    let stmts = file_stmts(x);
    assert forall|k: int| 0 <= k < stmts.len() implies {
        &&& name_wf((#[trigger] stmts[k]).name)
        &&& stmts[k].args.len() >= 1
        &&& (forall|j: int|
            0 <= j < stmts[k].args.len() ==> token_clean(#[trigger] stmts[k].args[j]))
        &&& (stmts[k].name == target || !is_suffix_of(target, stmts[k].name))
    } by {
        assert(is_stmt_name(stmts[k].name));
    }
}

/// For one grammar name: locating it in the rendered file equals the blobs
/// it is owed, decomposed over the file's six statement groups.
proof fn lemma_one_target(name: Seq<u8>, x: WeaponFileV, target: Seq<u8>)
    requires
        wf_file(x, name),
        is_stmt_name(target),
    ensures
        locate(ser_file_spec(x), target) == blobs_of(file_stmts(x), target),
        blobs_of(file_stmts(x), target) == blobs_of(
            seq![GStmt { name: start_name(), args: weapon_tokens(x.weapon) }],
            target,
        ).add(
            blobs_of(
                x.weapon_results.map_values(
                    |r: WeaponResultV| GStmt { name: result_name(), args: result_tokens(r) },
                ),
                target,
            ),
        ).add(
            blobs_of(
                seq![
                    GStmt { name: pen_name(), args: pen_tokens(x.weapon_penetration) },
                    GStmt { name: acc_name(), args: acc_tokens(x.weapon_accuracy) },
                ],
                target,
            ),
        ).add(
            blobs_of(
                match x.weapon_angles {
                    Option::Some(a) => seq![GStmt { name: angles_name(), args: angles_tokens(a) }],
                    Option::None => seq![],
                },
                target,
            ),
        ).add(
            blobs_of(
                match x.weapon_misc {
                    Option::Some(m) => seq![GStmt { name: misc_name(), args: misc_tokens(m) }],
                    Option::None => seq![],
                },
                target,
            ),
        ).add(
            blobs_of(
                match x.weapon_turret_sound {
                    Option::Some(s) => seq![GStmt { name: sound_name(), args: sound_tokens(s) }],
                    Option::None => seq![],
                },
                target,
            ),
        ),
{
    let stmts = file_stmts(x);
    let p0 = seq![GStmt { name: start_name(), args: weapon_tokens(x.weapon) }];
    let p1 = x.weapon_results.map_values(
        |r: WeaponResultV| GStmt { name: result_name(), args: result_tokens(r) },
    );
    let p2 = seq![
        GStmt { name: pen_name(), args: pen_tokens(x.weapon_penetration) },
        GStmt { name: acc_name(), args: acc_tokens(x.weapon_accuracy) },
    ];
    let p3: Seq<GStmt> = match x.weapon_angles {
        Option::Some(a) => seq![GStmt { name: angles_name(), args: angles_tokens(a) }],
        Option::None => seq![],
    };
    let p4: Seq<GStmt> = match x.weapon_misc {
        Option::Some(m) => seq![GStmt { name: misc_name(), args: misc_tokens(m) }],
        Option::None => seq![],
    };
    let p5: Seq<GStmt> = match x.weapon_turret_sound {
        Option::Some(s) => seq![GStmt { name: sound_name(), args: sound_tokens(s) }],
        Option::None => seq![],
    };
    lemma_file_stmts_wf(name, x, target);
    lemma_locate_stmts(stmts, target);
    lemma_blobs_concat(p0, p1, target);
    lemma_blobs_concat(p0.add(p1), p2, target);
    lemma_blobs_concat(p0.add(p1).add(p2), p3, target);
    lemma_blobs_concat(p0.add(p1).add(p2).add(p3), p4, target);
    lemma_blobs_concat(p0.add(p1).add(p2).add(p3).add(p4), p5, target);
}

/// What the locator owes for each grammar name over a rendered well-formed
/// file: one blob per statement of that name, in canonical order.
proof fn lemma_file_locates(name: Seq<u8>, x: WeaponFileV)
    requires
        wf_file(x, name),
    ensures
        locate(ser_file_spec(x), start_name()) == seq![join_comma(weapon_tokens(x.weapon))],
        locate(ser_file_spec(x), result_name()) == x.weapon_results.map_values(
            |r: WeaponResultV| join_comma(result_tokens(r)),
        ),
        locate(ser_file_spec(x), pen_name()) == seq![
            join_comma(pen_tokens(x.weapon_penetration)),
        ],
        locate(ser_file_spec(x), acc_name()) == seq![join_comma(acc_tokens(x.weapon_accuracy))],
        locate(ser_file_spec(x), angles_name()) == match x.weapon_angles {
            Option::Some(a) => seq![join_comma(angles_tokens(a))],
            Option::None => Seq::<Seq<u8>>::empty(),
        },
        locate(ser_file_spec(x), misc_name()) == match x.weapon_misc {
            Option::Some(m) => seq![join_comma(misc_tokens(m))],
            Option::None => Seq::<Seq<u8>>::empty(),
        },
        locate(ser_file_spec(x), sound_name()) == match x.weapon_turret_sound {
            Option::Some(s) => seq![join_comma(sound_tokens(s))],
            Option::None => Seq::<Seq<u8>>::empty(),
        },
{
    let stmts = file_stmts(x);
    let p0 = seq![GStmt { name: start_name(), args: weapon_tokens(x.weapon) }];
    let p1 = x.weapon_results.map_values(
        |r: WeaponResultV| GStmt { name: result_name(), args: result_tokens(r) },
    );
    let p2 = seq![
        GStmt { name: pen_name(), args: pen_tokens(x.weapon_penetration) },
        GStmt { name: acc_name(), args: acc_tokens(x.weapon_accuracy) },
    ];
    let p3: Seq<GStmt> = match x.weapon_angles {
        Option::Some(a) => seq![GStmt { name: angles_name(), args: angles_tokens(a) }],
        Option::None => seq![],
    };
    let p4: Seq<GStmt> = match x.weapon_misc {
        Option::Some(m) => seq![GStmt { name: misc_name(), args: misc_tokens(m) }],
        Option::None => seq![],
    };
    let p5: Seq<GStmt> = match x.weapon_turret_sound {
        Option::Some(s) => seq![GStmt { name: sound_name(), args: sound_tokens(s) }],
        Option::None => seq![],
    };
    lemma_names_wf();
    lemma_one_target(name, x, start_name());
    lemma_one_target(name, x, result_name());
    lemma_one_target(name, x, pen_name());
    lemma_one_target(name, x, acc_name());
    lemma_one_target(name, x, angles_name());
    lemma_one_target(name, x, misc_name());
    lemma_one_target(name, x, sound_name());
    assert(forall|k: int| 0 <= k < p1.len() ==> (#[trigger] p1[k]).name == result_name());
    // start
    lemma_single(p0, start_name());
    lemma_blobs_none(p1, start_name());
    lemma_none2(p2, start_name());
    lemma_opt_none(p3, start_name());
    lemma_opt_none(p4, start_name());
    lemma_opt_none(p5, start_name());
    assert(blobs_of(stmts, start_name()) =~~= seq![join_comma(weapon_tokens(x.weapon))]);
    // results
    lemma_blobs_none(p0, result_name());
    lemma_blobs_all(p1, result_name());
    lemma_none2(p2, result_name());
    lemma_opt_none(p3, result_name());
    lemma_opt_none(p4, result_name());
    lemma_opt_none(p5, result_name());
    assert(p1.map_values(|g: GStmt| join_comma(g.args)) =~~= x.weapon_results.map_values(
        |r: WeaponResultV| join_comma(result_tokens(r)),
    ));
    assert(blobs_of(stmts, result_name()) =~~= x.weapon_results.map_values(
        |r: WeaponResultV| join_comma(result_tokens(r)),
    ));
    // pen and acc
    lemma_blobs_none(p0, pen_name());
    lemma_blobs_none(p1, pen_name());
    lemma_pen_acc(p2, x);
    lemma_opt_none(p3, pen_name());
    lemma_opt_none(p4, pen_name());
    lemma_opt_none(p5, pen_name());
    assert(blobs_of(stmts, pen_name()) =~~= seq![join_comma(pen_tokens(x.weapon_penetration))]);
    lemma_blobs_none(p0, acc_name());
    lemma_blobs_none(p1, acc_name());
    lemma_opt_none(p3, acc_name());
    lemma_opt_none(p4, acc_name());
    lemma_opt_none(p5, acc_name());
    assert(blobs_of(stmts, acc_name()) =~~= seq![join_comma(acc_tokens(x.weapon_accuracy))]);
    // options
    lemma_blobs_none(p0, angles_name());
    lemma_blobs_none(p1, angles_name());
    lemma_none2(p2, angles_name());
    lemma_opt_single(p3, angles_name());
    lemma_opt_none(p4, angles_name());
    lemma_opt_none(p5, angles_name());
    assert(blobs_of(stmts, angles_name()) =~~= match x.weapon_angles {
        Option::Some(a) => seq![join_comma(angles_tokens(a))],
        Option::None => Seq::<Seq<u8>>::empty(),
    });
    lemma_blobs_none(p0, misc_name());
    lemma_blobs_none(p1, misc_name());
    lemma_none2(p2, misc_name());
    lemma_opt_none(p3, misc_name());
    lemma_opt_single(p4, misc_name());
    lemma_opt_none(p5, misc_name());
    assert(blobs_of(stmts, misc_name()) =~~= match x.weapon_misc {
        Option::Some(m) => seq![join_comma(misc_tokens(m))],
        Option::None => Seq::<Seq<u8>>::empty(),
    });
    lemma_blobs_none(p0, sound_name());
    lemma_blobs_none(p1, sound_name());
    lemma_none2(p2, sound_name());
    lemma_opt_none(p3, sound_name());
    lemma_opt_none(p4, sound_name());
    lemma_opt_single(p5, sound_name());
    assert(blobs_of(stmts, sound_name()) =~~= match x.weapon_turret_sound {
        Option::Some(s) => seq![join_comma(sound_tokens(s))],
        Option::None => Seq::<Seq<u8>>::empty(),
    });
}

/// Blobs of a single-statement list carrying the target name.
proof fn lemma_single(s: Seq<GStmt>, target: Seq<u8>)
    requires
        s.len() == 1,
        s[0].name == target,
    ensures
        blobs_of(s, target) == seq![join_comma(s[0].args)],
{
    let s1 = s.drop_first();
    assert(s1.len() == 0);
    assert(blobs_of(s1, target) =~~= Seq::<Seq<u8>>::empty());
    assert(blobs_of(s, target) == seq![join_comma(s[0].args)].add(blobs_of(s1, target)));
    assert(seq![join_comma(s[0].args)].add(Seq::<Seq<u8>>::empty()) =~~= seq![
        join_comma(s[0].args),
    ]);
}

/// Blobs of a two-statement list carrying neither the target name.
proof fn lemma_none2(s: Seq<GStmt>, target: Seq<u8>)
    requires
        s.len() == 2,
        s[0].name != target,
        s[1].name != target,
    ensures
        blobs_of(s, target) == Seq::<Seq<u8>>::empty(),
{
    lemma_blobs_none(s, target);
}

/// Blobs of an empty or one-foreign-statement list.
proof fn lemma_opt_none(s: Seq<GStmt>, target: Seq<u8>)
    requires
        s.len() == 0 || (s.len() == 1 && s[0].name != target),
    ensures
        blobs_of(s, target) == Seq::<Seq<u8>>::empty(),
{
    lemma_blobs_none(s, target);
}

/// Blobs of an empty or one-matching-statement list.
proof fn lemma_opt_single(s: Seq<GStmt>, target: Seq<u8>)
    requires
        s.len() == 0 || (s.len() == 1 && s[0].name == target),
    ensures
        blobs_of(s, target) == if s.len() == 0 {
            Seq::<Seq<u8>>::empty()
        } else {
            seq![join_comma(s[0].args)]
        },
{
    if s.len() == 1 {
        lemma_single(s, target);
    }
}

/// The penetration and accuracy pair owes each target its own blob.
proof fn lemma_pen_acc(s: Seq<GStmt>, x: WeaponFileV)
    requires
        s.len() == 2,
        s[0].name == pen_name(),
        s[1].name == acc_name(),
        s[0].args == pen_tokens(x.weapon_penetration),
        s[1].args == acc_tokens(x.weapon_accuracy),
    ensures
        blobs_of(s, pen_name()) == seq![join_comma(pen_tokens(x.weapon_penetration))],
        blobs_of(s, acc_name()) == seq![join_comma(acc_tokens(x.weapon_accuracy))],
{
    crate::names::lemma_names_no_suffix();
    assert(pen_name() != acc_name()) by {
        assert(pen_name().len() == 14 && acc_name().len() == 11);
    }
    let s1 = s.drop_first();
    assert(s1.len() == 1 && s1[0] == s[1]);
    assert(blobs_of(s, pen_name()) =~~= seq![join_comma(pen_tokens(x.weapon_penetration))]) by {
        assert(blobs_of(s1, pen_name()) =~~= Seq::<Seq<u8>>::empty()) by {
            lemma_blobs_none(s1, pen_name());
        }
    }
    assert(blobs_of(s, acc_name()) =~~= seq![join_comma(acc_tokens(x.weapon_accuracy))]) by {
        lemma_single(s1, acc_name());
    }
}

/// Each rendered result statement re-parses, in order, to the records it
/// came from.
proof fn lemma_results_round_trip(name: Seq<u8>, rs: Seq<WeaponResultV>, base: int)
    requires
        forall|i: int|
            0 <= i < rs.len() ==> {
                &&& (#[trigger] rs[i]).wf()
                &&& rs[i].weapon_name == name
                &&& rs[i].position == base + i
            },
    ensures
        parse_results(name, rs.map_values(|r: WeaponResultV| join_comma(result_tokens(r))), base)
            == Result::<Seq<WeaponResultV>, ParseError>::Ok(rs),
    decreases rs.len(),
{
    let blobs = rs.map_values(|r: WeaponResultV| join_comma(result_tokens(r)));
    if rs.len() == 0 {
        assert(parse_results(name, blobs, base) == Result::<Seq<WeaponResultV>,
            ParseError>::Ok(seq![]));
        assert(Seq::<WeaponResultV>::empty() =~~= rs);
    } else {
        let r0 = rs[0];
        lemma_result_round_trip(r0);
        lemma_split_join(result_tokens(r0));
        assert(tokenize_spec(blobs[0]) == Result::<Seq<Seq<u8>>, ParseError>::Ok(
            result_tokens(r0).map_values(|t: Seq<u8>| clean_token(t)),
        ));
        assert(map_result(
            name,
            base,
            result_tokens(r0).map_values(|t: Seq<u8>| clean_token(t)),
        ) == Result::<WeaponResultV, ParseError>::Ok(r0));
        assert(forall|i: int|
            0 <= i < rs.drop_first().len() ==> rs.drop_first()[i] == rs[i + 1]);
        lemma_results_round_trip(name, rs.drop_first(), base + 1);
        assert(blobs.drop_first() =~~= rs.drop_first().map_values(
            |r: WeaponResultV| join_comma(result_tokens(r)),
        ));
        assert(seq![r0].add(rs.drop_first()) =~~= rs);
    }
}

/// The round trip: parsing the canonical rendering of a well-formed weapon
/// file yields the same aggregate, with the weapon's reconciled scalars
/// back at their parse-time defaults. Statements and argument values
/// survive serialization exactly.
pub proof fn lemma_file_round_trip(name: Seq<u8>, x: WeaponFileV)
    requires
        wf_file(x, name),
    ensures
        parse_spec(name, ser_file_spec(x)) == Result::<WeaponFileV, ParseError>::Ok(
            WeaponFileV { weapon: x.weapon.reset_scalars(), ..x },
        ),
{
    let text = ser_file_spec(x);
    lemma_file_locates(name, x);
    // weapon
    crate::weapon::lemma_weapon_round_trip(x.weapon);
    lemma_split_join(weapon_tokens(x.weapon));
    assert(tokenize_spec(join_comma(weapon_tokens(x.weapon))) == Result::<Seq<Seq<u8>>,
        ParseError>::Ok(weapon_tokens(x.weapon).map_values(|t: Seq<u8>| clean_token(t))));
    assert(map_weapon(
        name,
        weapon_tokens(x.weapon).map_values(|t: Seq<u8>| clean_token(t)),
    ) == Result::<WeaponV, ParseError>::Ok(x.weapon.reset_scalars()));
    // results
    lemma_results_round_trip(name, x.weapon_results, 0);
    // pen
    lemma_pen_round_trip(name, x.weapon_penetration);
    lemma_split_join(pen_tokens(x.weapon_penetration));
    // acc
    lemma_acc_round_trip(name, x.weapon_accuracy);
    lemma_split_join(acc_tokens(x.weapon_accuracy));
    // options
    match x.weapon_angles {
        Option::Some(a) => {
            lemma_angles_round_trip(a);
            lemma_split_join(angles_tokens(a));
        },
        Option::None => {},
    }
    match x.weapon_misc {
        Option::Some(m) => {
            lemma_misc_round_trip(m);
            lemma_split_join(misc_tokens(m));
        },
        Option::None => {},
    }
    match x.weapon_turret_sound {
        Option::Some(s) => {
            lemma_sound_round_trip(s);
            lemma_split_join(sound_tokens(s));
        },
        Option::None => {},
    }
    assert(parse_spec(name, text)->Ok_0 =~~= WeaponFileV { weapon: x.weapon.reset_scalars(), ..x });
}


/// A weapon the mapper accepted is well formed and owned by `name`.
proof fn lemma_map_weapon_wf(name: Seq<u8>, toks: Seq<Seq<u8>>)
    requires
        map_weapon(name, toks) is Ok,
    ensures
        map_weapon(name, toks)->Ok_0.wf(),
        map_weapon(name, toks)->Ok_0.name == name,
{
    crate::num::lemma_zero_lit_wf();
    crate::num::lemma_one_lit_wf();
}

/// Results the parser accepted are well formed, owned by `name`, and
/// numbered from `base` in order.
proof fn lemma_parse_results_wf(name: Seq<u8>, blobs: Seq<Seq<u8>>, base: int)
    requires
        base >= 0,
        parse_results(name, blobs, base) is Ok,
    ensures
        ({
            let rs = parse_results(name, blobs, base)->Ok_0;
            &&& rs.len() == blobs.len()
            &&& forall|i: int|
                0 <= i < rs.len() ==> {
                    &&& (#[trigger] rs[i]).wf()
                    &&& rs[i].weapon_name == name
                    &&& rs[i].position == base + i
                }
        }),
    decreases blobs.len(),
{
    if blobs.len() > 0 {
        lemma_parse_results_wf(name, blobs.drop_first(), base + 1);
        let rs = parse_results(name, blobs, base)->Ok_0;
        let rest = parse_results(name, blobs.drop_first(), base + 1)->Ok_0;
        assert(forall|i: int| 1 <= i < rs.len() ==> rs[i] == rest[i - 1]);
    }
}

/// Family entries the mapper accepted are well formed and owned by `name`.
proof fn lemma_map_pen_fams_wf(name: Seq<u8>, toks: Seq<Seq<u8>>)
    requires
        crate::weapon_penetration::map_pen_fams(name, toks) is Ok,
    ensures
        ({
            let es = crate::weapon_penetration::map_pen_fams(name, toks)->Ok_0;
            forall|i: int|
                0 <= i < es.len() ==> {
                    &&& crate::ascii::is_ident((#[trigger] es[i]).armor_family)
                    &&& crate::num::is_float_lit(es[i].penetration)
                    &&& es[i].weapon_name == name
                }
        }),
    decreases toks.len(),
{
    crate::num::lemma_zero_lit_wf();
    if toks.len() > 0 {
        if toks[0].len() == 0 {
            lemma_map_pen_fams_wf(name, toks.drop_first());
        } else {
            crate::family::lemma_parse_family_wf(toks[0]);
            lemma_map_pen_fams_wf(name, toks.drop_first());
            let es = crate::weapon_penetration::map_pen_fams(name, toks)->Ok_0;
            let rest = crate::weapon_penetration::map_pen_fams(name, toks.drop_first())->Ok_0;
            assert(forall|i: int| 1 <= i < es.len() ==> es[i] == rest[i - 1]);
        }
    }
}

/// A penetration section the mapper accepted is well formed for `name`.
proof fn lemma_map_pen_wf(name: Seq<u8>, toks: Seq<Seq<u8>>)
    requires
        crate::weapon_penetration::map_pen(name, toks) is Ok,
    ensures
        crate::weapon_penetration::map_pen(name, toks)->Ok_0.wf(name),
{
    lemma_map_pen_fams_wf(name, toks.skip(2));
}

/// Family entries the accuracy mapper accepted are well formed.
proof fn lemma_map_acc_fams_wf(name: Seq<u8>, toks: Seq<Seq<u8>>)
    requires
        crate::weapon_accuracy::map_acc_fams(name, toks) is Ok,
    ensures
        ({
            let es = crate::weapon_accuracy::map_acc_fams(name, toks)->Ok_0;
            forall|i: int|
                0 <= i < es.len() ==> {
                    &&& crate::ascii::is_ident((#[trigger] es[i]).armor_family)
                    &&& crate::num::is_float_lit(es[i].accuracy)
                    &&& crate::num::is_float_lit(es[i].damage)
                    &&& es[i].weapon_name == name
                }
        }),
    decreases toks.len(),
{
    crate::num::lemma_zero_lit_wf();
    crate::num::lemma_one_lit_wf();
    if toks.len() > 0 {
        if toks[0].len() == 0 {
            lemma_map_acc_fams_wf(name, toks.drop_first());
        } else {
            crate::family::lemma_parse_family_wf(toks[0]);
            lemma_map_acc_fams_wf(name, toks.drop_first());
            let es = crate::weapon_accuracy::map_acc_fams(name, toks)->Ok_0;
            let rest = crate::weapon_accuracy::map_acc_fams(name, toks.drop_first())->Ok_0;
            assert(forall|i: int| 1 <= i < es.len() ==> es[i] == rest[i - 1]);
        }
    }
}

/// An accuracy section the mapper accepted is well formed for `name`.
proof fn lemma_map_acc_wf(name: Seq<u8>, toks: Seq<Seq<u8>>)
    requires
        crate::weapon_accuracy::map_acc(name, toks) is Ok,
    ensures
        crate::weapon_accuracy::map_acc(name, toks)->Ok_0.wf(name),
{
    lemma_map_acc_fams_wf(name, toks.skip(1));
}

/// Whatever the parser accepts is a well-formed weapon file for `name`.
pub proof fn lemma_parse_wf(name: Seq<u8>, text: Seq<u8>)
    requires
        parse_spec(name, text) is Ok,
    ensures
        wf_file(parse_spec(name, text)->Ok_0, name),
{
    let x = parse_spec(name, text)->Ok_0;
    crate::num::lemma_zero_lit_wf();
    let wb = locate(text, start_name());
    let wt = tokenize_spec(wb[0])->Ok_0;
    lemma_map_weapon_wf(name, wt);
    lemma_parse_results_wf(name, locate(text, result_name()), 0);
    let pb = locate(text, pen_name());
    if pb.len() != 0 {
        lemma_map_pen_wf(name, tokenize_spec(pb[0])->Ok_0);
    }
    let ab = locate(text, acc_name());
    if ab.len() != 0 {
        lemma_map_acc_wf(name, tokenize_spec(ab[0])->Ok_0);
    }
}

/// The round trip over the full pipeline: any aggregate a source text
/// parses to, once reconciled in and re-reconciled out for export, renders
/// to text that parses back to the same reconciled aggregate. The two texts
/// therefore carry the same statements with the same argument values.
pub proof fn lemma_pipeline_round_trip(name: Seq<u8>, text: Seq<u8>)
    requires
        parse_spec(name, text) is Ok,
    ensures
        ({
            let x = parse_spec(name, text)->Ok_0;
            let y = crate::wepn_file::push_out_spec(crate::wepn_file::pull_in_spec(x));
            &&& parse_spec(name, ser_file_spec(y)) is Ok
            &&& crate::wepn_file::pull_in_spec(parse_spec(name, ser_file_spec(y))->Ok_0)
                == crate::wepn_file::pull_in_spec(x)
        }),
{
    let x = parse_spec(name, text)->Ok_0;
    lemma_parse_wf(name, text);
    crate::wepn_file::lemma_reconcile_round_trip(x);
    let y = crate::wepn_file::push_out_spec(crate::wepn_file::pull_in_spec(x));
    assert(y == crate::wepn_file::pull_in_spec(x));
    assert(wf_file(y, name)) by {
        assert(y.weapon.wf());
    }
    lemma_file_round_trip(name, y);
    let z = parse_spec(name, ser_file_spec(y))->Ok_0;
    assert(z == WeaponFileV { weapon: y.weapon.reset_scalars(), ..y });
    assert(crate::wepn_file::pull_in_spec(z) =~~= y);
}

} // verus!
