//! The `setAccuracy` section: per-armor-family accuracy entries with an
//! optional damage multiplier, plus the denormalized `default_accuracy`
//! scalar that the text format embeds here but the normalized model owns on
//! the weapon. A family entry without a damage pair defaults it to `1.0`;
//! an entry with an empty value defaults that value to `0.0`.

use vstd::prelude::*;

use crate::ascii::copy_vec;
use crate::ascii::is_ident;
use crate::family::{fam_acc_token, parse_family, parse_family_spec};
use crate::num::{is_float_lit, one_lit, zero_lit, Num};
use crate::num::{num_one, num_zero};
use crate::tokenizer::{clean_token, token_clean};
use crate::ParseError;

verus! {

/// One per-family accuracy entry.
#[derive(Debug)]
pub struct WeaponAccuracy {
    /// The owning weapon's name.
    pub weapon_name: Vec<u8>,
    /// The armor family this entry applies to.
    pub armor_family: Vec<u8>,
    /// The accuracy value for that family.
    pub accuracy: Num,
    /// The damage multiplier; `1.0` when the source omitted it.
    pub damage: Num,
}

/// The mathematical model of a `WeaponAccuracy`.
#[verifier::ext_equal]
pub ghost struct WeaponAccuracyV {
    /// The owning weapon's name.
    pub weapon_name: Seq<u8>,
    /// The armor family.
    pub armor_family: Seq<u8>,
    /// The accuracy value.
    pub accuracy: Seq<u8>,
    /// The damage multiplier.
    pub damage: Seq<u8>,
}

impl View for WeaponAccuracy {
    type V = WeaponAccuracyV;

    open spec fn view(&self) -> WeaponAccuracyV {
        WeaponAccuracyV {
            weapon_name: self.weapon_name@,
            armor_family: self.armor_family@,
            accuracy: self.accuracy@,
            damage: self.damage@,
        }
    }
}

/// The models of a vector of entries, in order.
pub open spec fn acc_seq_view(v: Seq<WeaponAccuracy>) -> Seq<WeaponAccuracyV> {
    Seq::new(v.len(), |i: int| v[i]@)
}

/// The whole `setAccuracy` section of one weapon.
#[derive(Debug)]
pub struct WeaponAccuracyCollection {
    /// Applies to families not explicitly listed; owned by the weapon
    /// record once pulled in.
    pub default_accuracy: Num,
    /// The per-family entries, in source order.
    pub weapon_accuracies: Vec<WeaponAccuracy>,
}

/// The mathematical model of the section.
#[verifier::ext_equal]
pub ghost struct AccColV {
    /// The section-level scalar.
    pub default_accuracy: Seq<u8>,
    /// The per-family entries.
    pub entries: Seq<WeaponAccuracyV>,
}

impl View for WeaponAccuracyCollection {
    type V = AccColV;

    open spec fn view(&self) -> AccColV {
        AccColV {
            default_accuracy: self.default_accuracy@,
            entries: acc_seq_view(self.weapon_accuracies@),
        }
    }
}

impl AccColV {
    /// Every entry well formed and owned by `name`.
    pub open spec fn wf(self, name: Seq<u8>) -> bool {
        &&& is_float_lit(self.default_accuracy)
        &&& forall|i: int|
            0 <= i < self.entries.len() ==> {
                &&& is_ident((#[trigger] self.entries[i]).armor_family)
                &&& is_float_lit(self.entries[i].accuracy)
                &&& is_float_lit(self.entries[i].damage)
                &&& self.entries[i].weapon_name == name
            }
    }

    /// The section a parse yields when the statement is absent: the default
    /// scalar and no entries.
    pub open spec fn absent() -> AccColV {
        AccColV { default_accuracy: zero_lit(), entries: seq![] }
    }
}

/// Map the family tokens of a `setAccuracy` statement. Empty tokens (a
/// trailing comma) are skipped; an entry that does not parse is a type
/// error. An empty accuracy value defaults to `0.0`; an absent or empty
/// damage pair defaults to `1.0`.
pub open spec fn map_acc_fams(name: Seq<u8>, toks: Seq<Seq<u8>>) -> Result<
    Seq<WeaponAccuracyV>,
    ParseError,
>
    decreases toks.len(),
{
    if toks.len() == 0 {
        Result::Ok(seq![])
    } else if toks[0].len() == 0 {
        map_acc_fams(name, toks.drop_first())
    } else {
        match parse_family_spec(toks[0]) {
            Option::None => Result::Err(ParseError::FieldTypeError),
            Option::Some(f) => {
                match map_acc_fams(name, toks.drop_first()) {
                    Result::Err(e) => Result::Err(e),
                    Result::Ok(rest) => Result::Ok(
                        seq![
                            WeaponAccuracyV {
                                weapon_name: name,
                                armor_family: f.0,
                                accuracy: if f.1.len() == 0 {
                                    zero_lit()
                                } else {
                                    f.1
                                },
                                damage: match f.2 {
                                    Option::None => one_lit(),
                                    Option::Some(d) => if d.len() == 0 {
                                        one_lit()
                                    } else {
                                        d
                                    },
                                },
                            },
                        ].add(rest),
                    ),
                }
            },
        }
    }
}

/// Map the cleaned tokens of a `setAccuracy` statement: the fractional
/// `default_accuracy`, then the family entries.
pub open spec fn map_acc(name: Seq<u8>, toks: Seq<Seq<u8>>) -> Result<AccColV, ParseError> {
    if toks.len() < 1 {
        Result::Err(ParseError::ArityMismatch)
    } else if !is_float_lit(toks[0]) {
        Result::Err(ParseError::FieldTypeError)
    } else {
        match map_acc_fams(name, toks.skip(1)) {
            Result::Err(e) => Result::Err(e),
            Result::Ok(entries) => Result::Ok(
                AccColV { default_accuracy: toks[0], entries: entries },
            ),
        }
    }
}

/// The canonical argument tokens of the section, in statement order.
pub open spec fn acc_tokens(v: AccColV) -> Seq<Seq<u8>> {
    seq![v.default_accuracy].add(
        v.entries.map_values(
            |e: WeaponAccuracyV| fam_acc_token(e.armor_family, e.accuracy, e.damage),
        ),
    )
}

impl WeaponAccuracyCollection {
    /// Map the cleaned tokens of a `setAccuracy` statement, for the weapon
    /// named `name`.
    pub fn from_tokens(name: &[u8], toks: &Vec<Vec<u8>>) -> (r: Result<
        WeaponAccuracyCollection,
        ParseError,
    >)
        ensures
            match r {
                Result::Ok(c) => map_acc(name@, toks.deep_view()) == Result::<AccColV,
                    ParseError>::Ok(c@),
                Result::Err(e) => map_acc(name@, toks.deep_view()) == Result::<AccColV,
                    ParseError>::Err(e),
            },
    {
        let ghost dtoks = toks.deep_view();
        if toks.len() < 1 {
            return Result::Err(ParseError::ArityMismatch);
        }
        proof {
            assert(dtoks[0] =~= toks@[0]@);
        }
        let default_accuracy = match Num::from_token(copy_vec(&toks[0])) {
            Option::Some(x) => x,
            Option::None => {
                return Result::Err(ParseError::FieldTypeError);
            },
        };
        let mut entries: Vec<WeaponAccuracy> = Vec::new();
        let mut i: usize = 1;
        proof {
            assert(dtoks.skip(1).skip(0) =~= dtoks.skip(1));
            assert(acc_seq_view(entries@) =~~= Seq::<WeaponAccuracyV>::empty());
            if map_acc_fams(name@, dtoks.skip(1)) is Ok {
                let rest = map_acc_fams(name@, dtoks.skip(1))->Ok_0;
                assert(acc_seq_view(entries@).add(rest) =~~= rest);
            }
        }
        while i < toks.len()
            invariant
                1 <= i <= toks@.len(),
                dtoks == toks.deep_view(),
                dtoks.len() == toks@.len(),
                map_acc_fams(name@, dtoks.skip(1)) == match map_acc_fams(name@, dtoks.skip(i as int)) {
                    Result::Err(e) => Result::<Seq<WeaponAccuracyV>, ParseError>::Err(e),
                    Result::Ok(rest) => Result::Ok(acc_seq_view(entries@).add(rest)),
                },
            decreases toks@.len() - i,
        {
            let ghost suffix = dtoks.skip(i as int);
            proof {
                assert(suffix[0] =~= toks@[i as int]@);
                assert(suffix.drop_first() =~= dtoks.skip(i + 1));
            }
            let ghost pre = acc_seq_view(entries@);
            if toks[i].len() == 0 {
                i = i + 1;
                continue ;
            }
            match parse_family(toks[i].as_slice()) {
                Option::None => {
                    return Result::Err(ParseError::FieldTypeError);
                },
                Option::Some(f) => {
                    let (fam, val, dmg) = f;
                    let acc_num = if val.len() == 0 {
                        num_zero()
                    } else {
                        Num { lit: val }
                    };
                    let dmg_num = match dmg {
                        Option::None => num_one(),
                        Option::Some(d) => {
                            if d.len() == 0 {
                                num_one()
                            } else {
                                Num { lit: d }
                            }
                        },
                    };
                    let e = WeaponAccuracy {
                        weapon_name: vstd::slice::slice_to_vec(name),
                        armor_family: fam,
                        accuracy: acc_num,
                        damage: dmg_num,
                    };
                    let ghost ev = e@;
                    entries.push(e);
                    proof {
                        assert(acc_seq_view(entries@) =~~= pre.push(ev));
                        let frec = parse_family_spec(suffix[0])->Some_0;
                        assert(ev =~= WeaponAccuracyV {
                            weapon_name: name@,
                            armor_family: frec.0,
                            accuracy: if frec.1.len() == 0 {
                                zero_lit()
                            } else {
                                frec.1
                            },
                            damage: match frec.2 {
                                Option::None => one_lit(),
                                Option::Some(d) => if d.len() == 0 {
                                    one_lit()
                                } else {
                                    d
                                },
                            },
                        });
                        if map_acc_fams(name@, dtoks.skip(i + 1)) is Ok {
                            let rest = map_acc_fams(name@, dtoks.skip(i + 1))->Ok_0;
                            assert(pre.add(seq![ev].add(rest)) =~~= acc_seq_view(entries@).add(
                                rest,
                            ));
                        }
                    }
                    i = i + 1;
                },
            }
        }
        proof {
            assert(dtoks.skip(toks@.len() as int).len() == 0);
            assert(map_acc_fams(name@, dtoks.skip(toks@.len() as int))
                == Result::<Seq<WeaponAccuracyV>, ParseError>::Ok(seq![]));
            assert(acc_seq_view(entries@).add(Seq::<WeaponAccuracyV>::empty()) =~~= acc_seq_view(
                entries@,
            ));
        }
        let c = WeaponAccuracyCollection {
            default_accuracy: default_accuracy,
            weapon_accuracies: entries,
        };
        proof {
            assert(map_acc(name@, dtoks)->Ok_0 =~= c@);
        }
        Result::Ok(c)
    }

    /// The canonical argument tokens of this section.
    pub fn to_tokens(&self) -> (r: Vec<Vec<u8>>)
        ensures
            r.deep_view() == acc_tokens(self@),
    {
        let mut r: Vec<Vec<u8>> = Vec::new();
        r.push(copy_vec(&self.default_accuracy.lit));
        let mut i: usize = 0;
        while i < self.weapon_accuracies.len()
            invariant
                0 <= i <= self.weapon_accuracies@.len(),
                r.deep_view() =~~= seq![self.default_accuracy@].add(
                    acc_seq_view(self.weapon_accuracies@).subrange(0, i as int).map_values(
                        |e: WeaponAccuracyV| fam_acc_token(e.armor_family, e.accuracy, e.damage),
                    ),
                ),
            decreases self.weapon_accuracies@.len() - i,
        {
            let ghost pre = r.deep_view();
            let e = &self.weapon_accuracies[i];
            let t = crate::family::render_fam_acc(
                e.armor_family.as_slice(),
                &e.accuracy,
                &e.damage,
            );
            let ghost tv = t@;
            r.push(t);
            proof {
                let evs = acc_seq_view(self.weapon_accuracies@);
                assert(r.deep_view() =~~= pre.push(tv));
                assert(evs.subrange(0, i + 1) =~~= evs.subrange(0, i as int).push(evs[i as int]));
                assert(evs.subrange(0, i + 1).map_values(
                    |e: WeaponAccuracyV| fam_acc_token(e.armor_family, e.accuracy, e.damage),
                ) =~~= evs.subrange(0, i as int).map_values(
                    |e: WeaponAccuracyV| fam_acc_token(e.armor_family, e.accuracy, e.damage),
                ).push(
                    fam_acc_token(
                        evs[i as int].armor_family,
                        evs[i as int].accuracy,
                        evs[i as int].damage,
                    ),
                ));
            }
            i = i + 1;
        }
        proof {
            let evs = acc_seq_view(self.weapon_accuracies@);
            assert(evs.subrange(0, evs.len() as int) =~~= evs);
            assert(r.deep_view() =~~= acc_tokens(self@));
        }
        r
    }
}

/// Well-formed family entries render to tokens that map back to the same
/// entries.
proof fn lemma_acc_fams_round_trip(name: Seq<u8>, entries: Seq<WeaponAccuracyV>)
    requires
        forall|i: int|
            0 <= i < entries.len() ==> {
                &&& is_ident((#[trigger] entries[i]).armor_family)
                &&& is_float_lit(entries[i].accuracy)
                &&& is_float_lit(entries[i].damage)
                &&& entries[i].weapon_name == name
            },
    ensures
        map_acc_fams(
            name,
            entries.map_values(
                |e: WeaponAccuracyV| fam_acc_token(e.armor_family, e.accuracy, e.damage),
            ),
        ) == Result::<Seq<WeaponAccuracyV>, ParseError>::Ok(entries),
    decreases entries.len(),
{
    let toks = entries.map_values(
        |e: WeaponAccuracyV| fam_acc_token(e.armor_family, e.accuracy, e.damage),
    );
    if entries.len() == 0 {
        assert(toks.len() == 0);
        assert(Seq::<WeaponAccuracyV>::empty() =~~= entries);
    } else {
        let e0 = entries[0];
        let t0 = fam_acc_token(e0.armor_family, e0.accuracy, e0.damage);
        assert(toks[0] == t0);
        assert(t0.len() > 0);
        crate::family::lemma_fam_acc_round_trip(e0.armor_family, e0.accuracy, e0.damage);
        crate::family::lemma_float_bytes_plain(e0.accuracy);
        crate::family::lemma_float_bytes_plain(e0.damage);
        assert(forall|i: int|
            0 <= i < entries.drop_first().len() ==> entries.drop_first()[i] == entries[i + 1]);
        lemma_acc_fams_round_trip(name, entries.drop_first());
        assert(toks.drop_first() =~~= entries.drop_first().map_values(
            |e: WeaponAccuracyV| fam_acc_token(e.armor_family, e.accuracy, e.damage),
        ));
        assert(seq![e0].add(entries.drop_first()) =~~= entries);
    }
}

/// The canonical tokens of a well-formed section are clean, and mapping
/// them back (cleaned) recovers the section.
pub proof fn lemma_acc_round_trip(name: Seq<u8>, v: AccColV)
    requires
        v.wf(name),
    ensures
        acc_tokens(v).len() >= 1,
        forall|k: int| 0 <= k < acc_tokens(v).len() ==> token_clean(#[trigger] acc_tokens(v)[k]),
        map_acc(name, acc_tokens(v).map_values(|t: Seq<u8>| clean_token(t))) == Result::<AccColV,
            ParseError>::Ok(v),
{
    let toks = acc_tokens(v);
    let ct = toks.map_values(|t: Seq<u8>| clean_token(t));
    let fam_toks = v.entries.map_values(
        |e: WeaponAccuracyV| fam_acc_token(e.armor_family, e.accuracy, e.damage),
    );
    crate::ser::lemma_lit_clean(v.default_accuracy);
    assert(ct[0] == v.default_accuracy);
    assert(forall|k: int| 0 <= k < toks.len() ==> token_clean(#[trigger] toks[k])) by {
        assert(token_clean(toks[0]));
        assert forall|k: int| 1 <= k < toks.len() implies token_clean(#[trigger] toks[k]) by {
            let e = v.entries[k - 1];
            assert(toks[k] == fam_acc_token(e.armor_family, e.accuracy, e.damage));
            crate::family::lemma_fam_acc_clean(e.armor_family, e.accuracy, e.damage);
        }
    }
    assert(ct.skip(1) =~~= fam_toks) by {
        assert forall|k: int| 0 <= k < fam_toks.len() implies ct.skip(1)[k] == fam_toks[k] by {
            let e = v.entries[k];
            crate::family::lemma_fam_acc_clean(e.armor_family, e.accuracy, e.damage);
            assert(ct.skip(1)[k] == clean_token(toks[k + 1]));
        }
    }
    lemma_acc_fams_round_trip(name, v.entries);
    assert(map_acc(name, ct)->Ok_0 =~= v);
}

} // verus!
