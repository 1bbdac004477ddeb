//! The `setPenetration` section: per-armor-family penetration entries, plus
//! the two denormalized scalars (`field_penetration`, `default_penetration`)
//! that the text format embeds here but the normalized model owns on the
//! weapon. The reconciler moves them; this module parses and renders the
//! statement.

use vstd::prelude::*;

use crate::ascii::copy_vec;
use crate::family::{fam_pen_token, parse_family, parse_family_spec};
use crate::num::{is_float_lit, parse_i32_spec, render_i32, zero_lit, Num};
use crate::num::{check_float_lit, lemma_zero_lit_wf, num_zero, parse_i32, render_int};
use crate::ascii::is_ident;
use crate::tokenizer::{clean_token, token_clean};
use crate::ParseError;

verus! {

/// One per-family penetration entry.
#[derive(Debug)]
pub struct WeaponPenetration {
    /// The owning weapon's name.
    pub weapon_name: Vec<u8>,
    /// The armor family this entry applies to.
    pub armor_family: Vec<u8>,
    /// The penetration value for that family.
    pub penetration: Num,
}

/// The mathematical model of a `WeaponPenetration`.
#[verifier::ext_equal]
pub ghost struct WeaponPenetrationV {
    /// The owning weapon's name.
    pub weapon_name: Seq<u8>,
    /// The armor family.
    pub armor_family: Seq<u8>,
    /// The penetration value.
    pub penetration: Seq<u8>,
}

impl View for WeaponPenetration {
    type V = WeaponPenetrationV;

    open spec fn view(&self) -> WeaponPenetrationV {
        WeaponPenetrationV {
            weapon_name: self.weapon_name@,
            armor_family: self.armor_family@,
            penetration: self.penetration@,
        }
    }
}

/// The models of a vector of entries, in order.
pub open spec fn pen_seq_view(v: Seq<WeaponPenetration>) -> Seq<WeaponPenetrationV> {
    Seq::new(v.len(), |i: int| v[i]@)
}

/// The whole `setPenetration` section of one weapon.
#[derive(Debug)]
pub struct WeaponPenetrationCollection {
    /// Applies to families not explicitly listed; owned by the weapon
    /// record once pulled in.
    pub field_penetration: i32,
    /// Applies to families not explicitly listed; owned by the weapon
    /// record once pulled in.
    pub default_penetration: Num,
    /// The per-family entries, in source order.
    pub weapon_penetrations: Vec<WeaponPenetration>,
}

/// The mathematical model of the section.
#[verifier::ext_equal]
pub ghost struct PenColV {
    /// The section-level scalar.
    pub field_penetration: int,
    /// The section-level scalar.
    pub default_penetration: Seq<u8>,
    /// The per-family entries.
    pub entries: Seq<WeaponPenetrationV>,
}

impl View for WeaponPenetrationCollection {
    type V = PenColV;

    open spec fn view(&self) -> PenColV {
        PenColV {
            field_penetration: self.field_penetration as int,
            default_penetration: self.default_penetration@,
            entries: pen_seq_view(self.weapon_penetrations@),
        }
    }
}

impl PenColV {
    /// Every entry well formed and owned by `name`.
    pub open spec fn wf(self, name: Seq<u8>) -> bool {
        &&& -0x8000_0000 <= self.field_penetration <= 0x7fff_ffff
        &&& is_float_lit(self.default_penetration)
        &&& forall|i: int|
            0 <= i < self.entries.len() ==> {
                &&& is_ident((#[trigger] self.entries[i]).armor_family)
                &&& is_float_lit(self.entries[i].penetration)
                &&& self.entries[i].weapon_name == name
            }
    }

    /// The section a parse yields when the statement is absent: defaults
    /// and no entries.
    pub open spec fn absent() -> PenColV {
        PenColV { field_penetration: 0, default_penetration: zero_lit(), entries: seq![] }
    }
}

/// Map the family tokens of a `setPenetration` statement. Empty tokens (a
/// trailing comma) are skipped; a family entry carrying a damage pair, or
/// one that does not parse, is a type error. A family value written empty
/// defaults to `0.0`.
pub open spec fn map_pen_fams(name: Seq<u8>, toks: Seq<Seq<u8>>) -> Result<
    Seq<WeaponPenetrationV>,
    ParseError,
>
    decreases toks.len(),
{
    if toks.len() == 0 {
        Result::Ok(seq![])
    } else if toks[0].len() == 0 {
        map_pen_fams(name, toks.drop_first())
    } else {
        match parse_family_spec(toks[0]) {
            Option::None => Result::Err(ParseError::FieldTypeError),
            Option::Some(f) => {
                if f.2 is Some {
                    Result::Err(ParseError::FieldTypeError)
                } else {
                    match map_pen_fams(name, toks.drop_first()) {
                        Result::Err(e) => Result::Err(e),
                        Result::Ok(rest) => Result::Ok(
                            seq![
                                WeaponPenetrationV {
                                    weapon_name: name,
                                    armor_family: f.0,
                                    penetration: if f.1.len() == 0 {
                                        zero_lit()
                                    } else {
                                        f.1
                                    },
                                },
                            ].add(rest),
                        ),
                    }
                }
            },
        }
    }
}

/// Map the cleaned tokens of a `setPenetration` statement: the integer
/// `field_penetration`, the fractional `default_penetration`, then the
/// family entries.
pub open spec fn map_pen(name: Seq<u8>, toks: Seq<Seq<u8>>) -> Result<PenColV, ParseError> {
    if toks.len() < 2 {
        Result::Err(ParseError::ArityMismatch)
    } else if parse_i32_spec(toks[0]) is None || !is_float_lit(toks[1]) {
        Result::Err(ParseError::FieldTypeError)
    } else {
        match map_pen_fams(name, toks.skip(2)) {
            Result::Err(e) => Result::Err(e),
            Result::Ok(entries) => Result::Ok(
                PenColV {
                    field_penetration: parse_i32_spec(toks[0])->Some_0 as int,
                    default_penetration: toks[1],
                    entries: entries,
                },
            ),
        }
    }
}

/// The canonical argument tokens of the section, in statement order.
pub open spec fn pen_tokens(v: PenColV) -> Seq<Seq<u8>> {
    seq![render_i32(v.field_penetration), v.default_penetration].add(
        v.entries.map_values(|e: WeaponPenetrationV| fam_pen_token(e.armor_family, e.penetration)),
    )
}

impl WeaponPenetrationCollection {
    /// Map the cleaned tokens of a `setPenetration` statement, for the
    /// weapon named `name`.
    pub fn from_tokens(name: &[u8], toks: &Vec<Vec<u8>>) -> (r: Result<
        WeaponPenetrationCollection,
        ParseError,
    >)
        ensures
            match r {
                Result::Ok(c) => map_pen(name@, toks.deep_view()) == Result::<PenColV,
                    ParseError>::Ok(c@),
                Result::Err(e) => map_pen(name@, toks.deep_view()) == Result::<PenColV,
                    ParseError>::Err(e),
            },
    {
        let ghost dtoks = toks.deep_view();
        if toks.len() < 2 {
            return Result::Err(ParseError::ArityMismatch);
        }
        proof {
            assert(dtoks[0] =~= toks@[0]@);
            assert(dtoks[1] =~= toks@[1]@);
        }
        let field_penetration = match parse_i32(toks[0].as_slice()) {
            Option::Some(x) => x,
            Option::None => {
                return Result::Err(ParseError::FieldTypeError);
            },
        };
        let default_penetration = match Num::from_token(copy_vec(&toks[1])) {
            Option::Some(x) => x,
            Option::None => {
                return Result::Err(ParseError::FieldTypeError);
            },
        };
        let mut entries: Vec<WeaponPenetration> = Vec::new();
        let mut i: usize = 2;
        proof {
            assert(dtoks.skip(2).skip(0) =~= dtoks.skip(2));
            assert(pen_seq_view(entries@) =~~= Seq::<WeaponPenetrationV>::empty());
            if map_pen_fams(name@, dtoks.skip(2)) is Ok {
                let rest = map_pen_fams(name@, dtoks.skip(2))->Ok_0;
                assert(pen_seq_view(entries@).add(rest) =~~= rest);
            }
        }
        while i < toks.len()
            invariant
                2 <= i <= toks@.len(),
                dtoks == toks.deep_view(),
                dtoks.len() == toks@.len(),
                map_pen_fams(name@, dtoks.skip(2)) == match map_pen_fams(name@, dtoks.skip(i as int)) {
                    Result::Err(e) => Result::<Seq<WeaponPenetrationV>, ParseError>::Err(e),
                    Result::Ok(rest) => Result::Ok(pen_seq_view(entries@).add(rest)),
                },
            decreases toks@.len() - i,
        {
            let ghost suffix = dtoks.skip(i as int);
            proof {
                assert(suffix[0] =~= toks@[i as int]@);
                assert(suffix.drop_first() =~= dtoks.skip(i + 1));
            }
            let ghost pre = pen_seq_view(entries@);
            if toks[i].len() == 0 {
                i = i + 1;
                continue ;
            }
            match parse_family(toks[i].as_slice()) {
                Option::None => {
                    return Result::Err(ParseError::FieldTypeError);
                },
                Option::Some(f) => {
                    let (fam, val, dmg) = f;
                    if dmg.is_some() {
                        return Result::Err(ParseError::FieldTypeError);
                    }
                    let pen_num = if val.len() == 0 {
                        num_zero()
                    } else {
                        Num { lit: val }
                    };
                    let e = WeaponPenetration {
                        weapon_name: vstd::slice::slice_to_vec(name),
                        armor_family: fam,
                        penetration: pen_num,
                    };
                    let ghost ev = e@;
                    entries.push(e);
                    proof {
                        assert(pen_seq_view(entries@) =~~= pre.push(ev));
                        let frec = parse_family_spec(suffix[0])->Some_0;
                        assert(ev =~= WeaponPenetrationV {
                            weapon_name: name@,
                            armor_family: frec.0,
                            penetration: if frec.1.len() == 0 {
                                zero_lit()
                            } else {
                                frec.1
                            },
                        });
                        if map_pen_fams(name@, dtoks.skip(i + 1)) is Ok {
                            let rest = map_pen_fams(name@, dtoks.skip(i + 1))->Ok_0;
                            assert(pre.add(seq![ev].add(rest)) =~~= pen_seq_view(entries@).add(
                                rest,
                            ));
                        }
                    }
                    i = i + 1;
                },
            }
        }
        proof {
            assert(dtoks.skip(toks@.len() as int).len() == 0);
            assert(map_pen_fams(name@, dtoks.skip(toks@.len() as int))
                == Result::<Seq<WeaponPenetrationV>, ParseError>::Ok(seq![]));
            assert(pen_seq_view(entries@).add(Seq::<WeaponPenetrationV>::empty())
                =~~= pen_seq_view(entries@));
        }
        let c = WeaponPenetrationCollection {
            field_penetration: field_penetration,
            default_penetration: default_penetration,
            weapon_penetrations: entries,
        };
        proof {
            assert(map_pen(name@, dtoks)->Ok_0 =~= c@);
        }
        Result::Ok(c)
    }

    /// The canonical argument tokens of this section.
    pub fn to_tokens(&self) -> (r: Vec<Vec<u8>>)
        ensures
            r.deep_view() == pen_tokens(self@),
    {
        let mut r: Vec<Vec<u8>> = Vec::new();
        r.push(render_int(self.field_penetration));
        r.push(copy_vec(&self.default_penetration.lit));
        let mut i: usize = 0;
        while i < self.weapon_penetrations.len()
            invariant
                0 <= i <= self.weapon_penetrations@.len(),
                r.deep_view() =~~= seq![
                    render_i32(self.field_penetration as int),
                    self.default_penetration@,
                ].add(
                    pen_seq_view(self.weapon_penetrations@).subrange(0, i as int).map_values(
                        |e: WeaponPenetrationV| fam_pen_token(e.armor_family, e.penetration),
                    ),
                ),
            decreases self.weapon_penetrations@.len() - i,
        {
            let ghost pre = r.deep_view();
            let e = &self.weapon_penetrations[i];
            let t = crate::family::render_fam_pen(e.armor_family.as_slice(), &e.penetration);
            let ghost tv = t@;
            r.push(t);
            proof {
                let evs = pen_seq_view(self.weapon_penetrations@);
                assert(r.deep_view() =~~= pre.push(tv));
                assert(evs.subrange(0, i + 1) =~~= evs.subrange(0, i as int).push(
                    evs[i as int],
                ));
                assert(evs.subrange(0, i + 1).map_values(
                    |e: WeaponPenetrationV| fam_pen_token(e.armor_family, e.penetration),
                ) =~~= evs.subrange(0, i as int).map_values(
                    |e: WeaponPenetrationV| fam_pen_token(e.armor_family, e.penetration),
                ).push(fam_pen_token(evs[i as int].armor_family, evs[i as int].penetration)));
            }
            i = i + 1;
        }
        proof {
            let evs = pen_seq_view(self.weapon_penetrations@);
            assert(evs.subrange(0, evs.len() as int) =~~= evs);
            assert(r.deep_view() =~~= pen_tokens(self@));
        }
        r
    }
}

/// Well-formed family entries render to tokens that map back to the same
/// entries.
proof fn lemma_pen_fams_round_trip(name: Seq<u8>, entries: Seq<WeaponPenetrationV>)
    requires
        forall|i: int|
            0 <= i < entries.len() ==> {
                &&& is_ident((#[trigger] entries[i]).armor_family)
                &&& is_float_lit(entries[i].penetration)
                &&& entries[i].weapon_name == name
            },
    ensures
        map_pen_fams(
            name,
            entries.map_values(
                |e: WeaponPenetrationV| fam_pen_token(e.armor_family, e.penetration),
            ),
        ) == Result::<Seq<WeaponPenetrationV>, ParseError>::Ok(entries),
    decreases entries.len(),
{
    let toks = entries.map_values(
        |e: WeaponPenetrationV| fam_pen_token(e.armor_family, e.penetration),
    );
    if entries.len() == 0 {
        assert(toks.len() == 0);
        assert(map_pen_fams(name, toks) == Result::<Seq<WeaponPenetrationV>, ParseError>::Ok(
            Seq::empty(),
        ));
        assert(Seq::<WeaponPenetrationV>::empty() =~~= entries);
    } else {
        let e0 = entries[0];
        let t0 = fam_pen_token(e0.armor_family, e0.penetration);
        assert(toks[0] == t0);
        assert(t0.len() > 0);
        crate::family::lemma_fam_pen_round_trip(e0.armor_family, e0.penetration);
        crate::family::lemma_float_bytes_plain(e0.penetration);
        assert(forall|i: int|
            0 <= i < entries.drop_first().len() ==> entries.drop_first()[i] == entries[i + 1]);
        lemma_pen_fams_round_trip(name, entries.drop_first());
        assert(toks.drop_first() =~~= entries.drop_first().map_values(
            |e: WeaponPenetrationV| fam_pen_token(e.armor_family, e.penetration),
        ));
        assert(seq![e0].add(entries.drop_first()) =~~= entries);
    }
}

/// The canonical tokens of a well-formed section are clean, and mapping
/// them back (cleaned) recovers the section.
pub proof fn lemma_pen_round_trip(name: Seq<u8>, v: PenColV)
    requires
        v.wf(name),
    ensures
        pen_tokens(v).len() >= 2,
        forall|k: int| 0 <= k < pen_tokens(v).len() ==> token_clean(#[trigger] pen_tokens(v)[k]),
        map_pen(name, pen_tokens(v).map_values(|t: Seq<u8>| clean_token(t))) == Result::<PenColV,
            ParseError>::Ok(v),
{
    let toks = pen_tokens(v);
    let ct = toks.map_values(|t: Seq<u8>| clean_token(t));
    let fam_toks = v.entries.map_values(
        |e: WeaponPenetrationV| fam_pen_token(e.armor_family, e.penetration),
    );
    crate::ser::lemma_int_clean(v.field_penetration);
    crate::num::lemma_i32_round_trip(v.field_penetration as i32);
    crate::ser::lemma_lit_clean(v.default_penetration);
    assert(ct[0] == render_i32(v.field_penetration) && ct[1] == v.default_penetration);
    assert(forall|k: int| 0 <= k < toks.len() ==> token_clean(#[trigger] toks[k])) by {
        assert(token_clean(toks[0]) && token_clean(toks[1]));
        assert forall|k: int| 2 <= k < toks.len() implies token_clean(#[trigger] toks[k]) by {
            let e = v.entries[k - 2];
            assert(toks[k] == fam_pen_token(e.armor_family, e.penetration));
            crate::family::lemma_fam_pen_clean(e.armor_family, e.penetration);
        }
    }
    assert(ct.skip(2) =~~= fam_toks) by {
        assert forall|k: int| 0 <= k < fam_toks.len() implies ct.skip(2)[k] == fam_toks[k] by {
            let e = v.entries[k];
            crate::family::lemma_fam_pen_clean(e.armor_family, e.penetration);
            assert(ct.skip(2)[k] == clean_token(toks[k + 2]));
        }
    }
    lemma_pen_fams_round_trip(name, v.entries);
    assert(map_pen(name, ct)->Ok_0 =~= v);
}

} // verus!
