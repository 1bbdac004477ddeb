//! The weapon-file aggregate: one weapon record with its child collections,
//! the unit of import, export and round-trip correctness. Parsing locates
//! each statement kind in the raw text, tokenizes its argument blob and maps
//! it; serializing renders the statements back in canonical order, joined by
//! blank lines. The reconciler moves the three denormalized scalars between
//! the weapon record and the penetration and accuracy sections.

use vstd::prelude::*;
use vstd::multiset::Multiset;

use crate::locator::{locate, locate_exec};
use crate::names::{acc_name, angles_name, misc_name, pen_name, result_name, sound_name,
    start_name};
use crate::names::{acc_name_bytes, angles_name_bytes, misc_name_bytes, pen_name_bytes,
    result_name_bytes, sound_name_bytes, start_name_bytes};
use crate::num::{num_zero, Num};
use crate::ser::{ser_stmt, ser_stmts, ser_stmt_exec, sep2, GStmt};
use crate::tokenizer::{tokenize, tokenize_spec};
use crate::weapon::{map_weapon, weapon_tokens, Weapon, WeaponV};
use crate::weapon_accuracy::{map_acc, acc_tokens, AccColV, WeaponAccuracyCollection};
use crate::weapon_angles::{map_angles, angles_tokens, WeaponAngles, WeaponAnglesV};
use crate::weapon_misc::{map_misc, misc_tokens, WeaponMisc, WeaponMiscV};
use crate::weapon_penetration::{map_pen, pen_tokens, PenColV, WeaponPenetrationCollection};
use crate::weapon_result::{map_result, result_tokens, WeaponResult, WeaponResultV};
use crate::weapon_turret_sound::{map_sound, sound_tokens, WeaponTurretSound, WeaponTurretSoundV};
use crate::ParseError;

verus! {

/// The results of one weapon, in source order.
#[derive(Debug)]
pub struct WeaponResultCollection {
    /// The records, ordered by their `position` field.
    pub weapon_results: Vec<WeaponResult>,
}

/// The models of a vector of result records, in order.
pub open spec fn result_seq_view(v: Seq<WeaponResult>) -> Seq<WeaponResultV> {
    Seq::new(v.len(), |i: int| v[i]@)
}

impl View for WeaponResultCollection {
    type V = Seq<WeaponResultV>;

    open spec fn view(&self) -> Seq<WeaponResultV> {
        result_seq_view(self.weapon_results@)
    }
}

/// One weapon file: the aggregate of a weapon and its child collections.
/// Optional sections are `None` when their statement is absent, so absence
/// is observable and exportable.
#[derive(Debug)]
pub struct WeaponFile {
    /// The core weapon record.
    pub weapon: Weapon,
    /// The `AddWeaponResult` records, in source order.
    pub weapon_results: WeaponResultCollection,
    /// The `setPenetration` section.
    pub weapon_penetration: WeaponPenetrationCollection,
    /// The `setAccuracy` section.
    pub weapon_accuracy: WeaponAccuracyCollection,
    /// The `setAngles` section, if present.
    pub weapon_angles: Option<WeaponAngles>,
    /// The `setMiscValues` section, if present.
    pub weapon_misc: Option<WeaponMisc>,
    /// The `addAnimTurretSound` section, if present.
    pub weapon_turret_sound: Option<WeaponTurretSound>,
}

/// The mathematical model of a weapon file.
#[verifier::ext_equal]
pub ghost struct WeaponFileV {
    /// The core weapon record.
    pub weapon: WeaponV,
    /// The result records, in order.
    pub weapon_results: Seq<WeaponResultV>,
    /// The penetration section.
    pub weapon_penetration: PenColV,
    /// The accuracy section.
    pub weapon_accuracy: AccColV,
    /// The angles section, if present.
    pub weapon_angles: Option<WeaponAnglesV>,
    /// The misc section, if present.
    pub weapon_misc: Option<WeaponMiscV>,
    /// The turret-sound section, if present.
    pub weapon_turret_sound: Option<WeaponTurretSoundV>,
}

impl View for WeaponFile {
    type V = WeaponFileV;

    open spec fn view(&self) -> WeaponFileV {
        WeaponFileV {
            weapon: self.weapon@,
            weapon_results: self.weapon_results@,
            weapon_penetration: self.weapon_penetration@,
            weapon_accuracy: self.weapon_accuracy@,
            weapon_angles: match self.weapon_angles {
                Option::Some(ref a) => Option::Some(a@),
                Option::None => Option::None,
            },
            weapon_misc: match self.weapon_misc {
                Option::Some(ref m) => Option::Some(m@),
                Option::None => Option::None,
            },
            weapon_turret_sound: match self.weapon_turret_sound {
                Option::Some(ref s) => Option::Some(s@),
                Option::None => Option::None,
            },
        }
    }
}

/// Map each located `AddWeaponResult` blob, numbering occurrences from
/// `pos` in text order.
pub open spec fn parse_results(name: Seq<u8>, blobs: Seq<Seq<u8>>, pos: int) -> Result<
    Seq<WeaponResultV>,
    ParseError,
>
    decreases blobs.len(),
{
    if blobs.len() == 0 {
        Result::Ok(seq![])
    } else {
        match tokenize_spec(blobs[0]) {
            Result::Err(e) => Result::Err(e),
            Result::Ok(toks) => match map_result(name, pos, toks) {
                Result::Err(e) => Result::Err(e),
                Result::Ok(r) => match parse_results(name, blobs.drop_first(), pos + 1) {
                    Result::Err(e) => Result::Err(e),
                    Result::Ok(rest) => Result::Ok(seq![r].add(rest)),
                },
            },
        }
    }
}

/// The penetration section from its located blobs: defaults when absent,
/// the first occurrence otherwise.
pub open spec fn parse_pen_section(name: Seq<u8>, blobs: Seq<Seq<u8>>) -> Result<
    PenColV,
    ParseError,
> {
    if blobs.len() == 0 {
        Result::Ok(PenColV::absent())
    } else {
        match tokenize_spec(blobs[0]) {
            Result::Err(e) => Result::Err(e),
            Result::Ok(toks) => map_pen(name, toks),
        }
    }
}

/// The accuracy section from its located blobs: defaults when absent, the
/// first occurrence otherwise.
pub open spec fn parse_acc_section(name: Seq<u8>, blobs: Seq<Seq<u8>>) -> Result<
    AccColV,
    ParseError,
> {
    if blobs.len() == 0 {
        Result::Ok(AccColV::absent())
    } else {
        match tokenize_spec(blobs[0]) {
            Result::Err(e) => Result::Err(e),
            Result::Ok(toks) => map_acc(name, toks),
        }
    }
}

/// An optional angles section from its located blobs.
pub open spec fn parse_angles_section(name: Seq<u8>, blobs: Seq<Seq<u8>>) -> Result<
    Option<WeaponAnglesV>,
    ParseError,
> {
    if blobs.len() == 0 {
        Result::Ok(Option::None)
    } else {
        match tokenize_spec(blobs[0]) {
            Result::Err(e) => Result::Err(e),
            Result::Ok(toks) => match map_angles(name, toks) {
                Result::Err(e) => Result::Err(e),
                Result::Ok(a) => Result::Ok(Option::Some(a)),
            },
        }
    }
}

/// An optional misc section from its located blobs.
pub open spec fn parse_misc_section(name: Seq<u8>, blobs: Seq<Seq<u8>>) -> Result<
    Option<WeaponMiscV>,
    ParseError,
> {
    if blobs.len() == 0 {
        Result::Ok(Option::None)
    } else {
        match tokenize_spec(blobs[0]) {
            Result::Err(e) => Result::Err(e),
            Result::Ok(toks) => match map_misc(name, toks) {
                Result::Err(e) => Result::Err(e),
                Result::Ok(m) => Result::Ok(Option::Some(m)),
            },
        }
    }
}

/// An optional turret-sound section from its located blobs.
pub open spec fn parse_sound_section(name: Seq<u8>, blobs: Seq<Seq<u8>>) -> Result<
    Option<WeaponTurretSoundV>,
    ParseError,
> {
    if blobs.len() == 0 {
        Result::Ok(Option::None)
    } else {
        match tokenize_spec(blobs[0]) {
            Result::Err(e) => Result::Err(e),
            Result::Ok(toks) => match map_sound(name, toks) {
                Result::Err(e) => Result::Err(e),
                Result::Ok(s) => Result::Ok(Option::Some(s)),
            },
        }
    }
}

/// Parse one weapon source text under the identity `name` (the source
/// file's base name). The opening statement is mandatory; the result list
/// may be empty; the penetration and accuracy sections default when absent;
/// the remaining sections are optional. A parse failure concerns this file
/// alone.
pub open spec fn parse_spec(name: Seq<u8>, text: Seq<u8>) -> Result<WeaponFileV, ParseError> {
    let wb = locate(text, start_name());
    if wb.len() == 0 {
        Result::Err(ParseError::MandatoryStatementMissing)
    } else {
        match tokenize_spec(wb[0]) {
            Result::Err(e) => Result::Err(e),
            Result::Ok(wt) => match map_weapon(name, wt) {
                Result::Err(e) => Result::Err(e),
                Result::Ok(w) => match parse_results(name, locate(text, result_name()), 0) {
                    Result::Err(e) => Result::Err(e),
                    Result::Ok(rs) => match parse_pen_section(name, locate(text, pen_name())) {
                        Result::Err(e) => Result::Err(e),
                        Result::Ok(pen) => match parse_acc_section(
                            name,
                            locate(text, acc_name()),
                        ) {
                            Result::Err(e) => Result::Err(e),
                            Result::Ok(acc) => match parse_angles_section(
                                name,
                                locate(text, angles_name()),
                            ) {
                                Result::Err(e) => Result::Err(e),
                                Result::Ok(ang) => match parse_misc_section(
                                    name,
                                    locate(text, misc_name()),
                                ) {
                                    Result::Err(e) => Result::Err(e),
                                    Result::Ok(misc) => match parse_sound_section(
                                        name,
                                        locate(text, sound_name()),
                                    ) {
                                        Result::Err(e) => Result::Err(e),
                                        Result::Ok(snd) => Result::Ok(
                                            WeaponFileV {
                                                weapon: w,
                                                weapon_results: rs,
                                                weapon_penetration: pen,
                                                weapon_accuracy: acc,
                                                weapon_angles: ang,
                                                weapon_misc: misc,
                                                weapon_turret_sound: snd,
                                            },
                                        ),
                                    },
                                },
                            },
                        },
                    },
                },
            },
        }
    }
}

/// The statements of a weapon file, in canonical order: the weapon, its
/// results in sequence, the penetration and accuracy sections, then each
/// optional section that is present.
pub open spec fn file_stmts(x: WeaponFileV) -> Seq<GStmt> {
    seq![GStmt { name: start_name(), args: weapon_tokens(x.weapon) }].add(
        x.weapon_results.map_values(
            |r: WeaponResultV| GStmt { name: result_name(), args: result_tokens(r) },
        ),
    ).add(
        seq![
            GStmt { name: pen_name(), args: pen_tokens(x.weapon_penetration) },
            GStmt { name: acc_name(), args: acc_tokens(x.weapon_accuracy) },
        ],
    ).add(
        match x.weapon_angles {
            Option::Some(a) => seq![GStmt { name: angles_name(), args: angles_tokens(a) }],
            Option::None => seq![],
        },
    ).add(
        match x.weapon_misc {
            Option::Some(m) => seq![GStmt { name: misc_name(), args: misc_tokens(m) }],
            Option::None => seq![],
        },
    ).add(
        match x.weapon_turret_sound {
            Option::Some(s) => seq![GStmt { name: sound_name(), args: sound_tokens(s) }],
            Option::None => seq![],
        },
    )
}

/// A weapon file rendered as canonical statement text.
pub open spec fn ser_file_spec(x: WeaponFileV) -> Seq<u8> {
    ser_stmts(file_stmts(x))
}

/// Appending one statement to a rendered list appends a blank line (after
/// the first statement) and the statement.
pub proof fn lemma_ser_stmts_snoc(stmts: Seq<GStmt>, g: GStmt)
    ensures
        ser_stmts(stmts.push(g)) == if stmts.len() == 0 {
            ser_stmt(g.name, g.args)
        } else {
            ser_stmts(stmts).add(sep2()).add(ser_stmt(g.name, g.args))
        },
    decreases stmts.len(),
{
    let w = stmts.push(g);
    if stmts.len() == 0 {
        assert(w.len() == 1);
        assert(w[0] == g);
    } else {
        assert(w[0] == stmts[0]);
        assert(w.drop_first() =~~= stmts.drop_first().push(g));
        lemma_ser_stmts_snoc(stmts.drop_first(), g);
        if stmts.len() == 1 {
            assert(ser_stmts(w) == ser_stmt(stmts[0].name, stmts[0].args).add(sep2()).add(
                ser_stmt(g.name, g.args),
            ));
        } else {
            assert(ser_stmts(w) == ser_stmt(stmts[0].name, stmts[0].args).add(sep2()).add(
                ser_stmts(stmts.drop_first()).add(sep2()).add(ser_stmt(g.name, g.args)),
            ));
            assert(ser_stmt(stmts[0].name, stmts[0].args).add(sep2()).add(
                ser_stmts(stmts.drop_first()).add(sep2()).add(ser_stmt(g.name, g.args)),
            ) =~= ser_stmts(stmts).add(sep2()).add(ser_stmt(g.name, g.args)));
        }
    }
}

/// Append one rendered statement to the output, with the blank-line
/// separator before it unless it is the first.
fn append_stmt(out: &mut Vec<u8>, name: &[u8], args: &Vec<Vec<u8>>, first: bool)
    requires
        args@.len() >= 1,
    ensures
        final(out)@ == if first {
            old(out)@ + ser_stmt(name@, args.deep_view())
        } else {
            old(out)@ + sep2() + ser_stmt(name@, args.deep_view())
        },
{
    if !first {
        out.push(crate::ascii::CR);
        out.push(crate::ascii::LF);
        out.push(crate::ascii::CR);
        out.push(crate::ascii::LF);
        proof {
            assert(out@ =~= old(out)@ + sep2());
        }
    }
    let s = ser_stmt_exec(name, args);
    crate::ascii::extend_from(out, s.as_slice());
}

/// Locate and map every `AddWeaponResult` occurrence of `text`.
fn parse_results_exec(name: &[u8], text: &[u8]) -> (r: Result<Vec<WeaponResult>, ParseError>)
    ensures
        match r {
            Result::Ok(v) => parse_results(name@, locate(text@, result_name()), 0)
                == Result::<Seq<WeaponResultV>, ParseError>::Ok(result_seq_view(v@)),
            Result::Err(e) => parse_results(name@, locate(text@, result_name()), 0)
                == Result::<Seq<WeaponResultV>, ParseError>::Err(e),
        },
{
    let rn = result_name_bytes();
    let rblobs = locate_exec(text, rn.as_slice());
    let ghost grblobs = rblobs.deep_view();
    let mut results: Vec<WeaponResult> = Vec::new();
    let mut i: usize = 0;
    proof {
        assert(grblobs.skip(0) =~= grblobs);
        assert(result_seq_view(results@) =~~= Seq::<WeaponResultV>::empty());
        if parse_results(name@, grblobs, 0) is Ok {
            let rest = parse_results(name@, grblobs, 0)->Ok_0;
            assert(result_seq_view(results@).add(rest) =~~= rest);
        }
    }
    while i < rblobs.len()
        invariant
            0 <= i <= rblobs@.len(),
            grblobs == rblobs.deep_view(),
            grblobs.len() == rblobs@.len(),
            parse_results(name@, grblobs, 0) == match parse_results(
                name@,
                grblobs.skip(i as int),
                i as int,
            ) {
                Result::Err(e) => Result::<Seq<WeaponResultV>, ParseError>::Err(e),
                Result::Ok(rest) => Result::Ok(result_seq_view(results@).add(rest)),
            },
        decreases rblobs@.len() - i,
    {
        let ghost suffix = grblobs.skip(i as int);
        proof {
            assert(suffix[0] =~= rblobs@[i as int]@);
            assert(suffix.drop_first() =~= grblobs.skip(i + 1));
        }
        let ghost pre = result_seq_view(results@);
        let toks = match tokenize(rblobs[i].as_slice()) {
            Result::Ok(t) => t,
            Result::Err(e) => {
                return Result::Err(e);
            },
        };
        let r = match WeaponResult::from_tokens(name, i, &toks) {
            Result::Ok(r) => r,
            Result::Err(e) => {
                return Result::Err(e);
            },
        };
        let ghost rv = r@;
        results.push(r);
        proof {
            assert(result_seq_view(results@) =~~= pre.push(rv));
            if parse_results(name@, grblobs.skip(i + 1), i + 1) is Ok {
                let rest = parse_results(name@, grblobs.skip(i + 1), i + 1)->Ok_0;
                assert(pre.add(seq![rv].add(rest)) =~~= result_seq_view(results@).add(rest));
            }
        }
        i = i + 1;
    }
    proof {
        assert(grblobs.skip(grblobs.len() as int).len() == 0);
        assert(result_seq_view(results@).add(Seq::<WeaponResultV>::empty()) =~~= result_seq_view(
            results@,
        ));
    }
    Result::Ok(results)
}

/// Locate and map the `setPenetration` section of `text`.
fn parse_pen_exec(name: &[u8], text: &[u8]) -> (r: Result<
    WeaponPenetrationCollection,
    ParseError,
>)
    ensures
        match r {
            Result::Ok(c) => parse_pen_section(name@, locate(text@, pen_name()))
                == Result::<PenColV, ParseError>::Ok(c@),
            Result::Err(e) => parse_pen_section(name@, locate(text@, pen_name()))
                == Result::<PenColV, ParseError>::Err(e),
        },
{
    let pn = pen_name_bytes();
    let pblobs = locate_exec(text, pn.as_slice());
    if pblobs.len() == 0 {
        let c = WeaponPenetrationCollection {
            field_penetration: 0,
            default_penetration: num_zero(),
            weapon_penetrations: Vec::new(),
        };
        proof {
            assert(c@ =~= PenColV::absent());
        }
        return Result::Ok(c);
    }
    proof {
        assert(pblobs.deep_view()[0] =~= pblobs@[0]@);
    }
    let toks = match tokenize(pblobs[0].as_slice()) {
        Result::Ok(t) => t,
        Result::Err(e) => {
            return Result::Err(e);
        },
    };
    WeaponPenetrationCollection::from_tokens(name, &toks)
}

/// Locate and map the `setAccuracy` section of `text`.
fn parse_acc_exec(name: &[u8], text: &[u8]) -> (r: Result<WeaponAccuracyCollection, ParseError>)
    ensures
        match r {
            Result::Ok(c) => parse_acc_section(name@, locate(text@, acc_name()))
                == Result::<AccColV, ParseError>::Ok(c@),
            Result::Err(e) => parse_acc_section(name@, locate(text@, acc_name()))
                == Result::<AccColV, ParseError>::Err(e),
        },
{
    let an = acc_name_bytes();
    let ablobs = locate_exec(text, an.as_slice());
    if ablobs.len() == 0 {
        let c = WeaponAccuracyCollection {
            default_accuracy: num_zero(),
            weapon_accuracies: Vec::new(),
        };
        proof {
            assert(c@ =~= AccColV::absent());
        }
        return Result::Ok(c);
    }
    proof {
        assert(ablobs.deep_view()[0] =~= ablobs@[0]@);
    }
    let toks = match tokenize(ablobs[0].as_slice()) {
        Result::Ok(t) => t,
        Result::Err(e) => {
            return Result::Err(e);
        },
    };
    WeaponAccuracyCollection::from_tokens(name, &toks)
}

/// Locate and map the optional `setAngles` section of `text`.
fn parse_angles_exec(name: &[u8], text: &[u8]) -> (r: Result<Option<WeaponAngles>, ParseError>)
    ensures
        match r {
            Result::Ok(o) => parse_angles_section(name@, locate(text@, angles_name())) == match o {
                Option::Some(a) => Result::<Option<WeaponAnglesV>, ParseError>::Ok(
                    Option::Some(a@),
                ),
                Option::None => Result::Ok(Option::None),
            },
            Result::Err(e) => parse_angles_section(name@, locate(text@, angles_name()))
                == Result::<Option<WeaponAnglesV>, ParseError>::Err(e),
        },
{
    let gn = angles_name_bytes();
    let gblobs = locate_exec(text, gn.as_slice());
    if gblobs.len() == 0 {
        return Result::Ok(Option::None);
    }
    proof {
        assert(gblobs.deep_view()[0] =~= gblobs@[0]@);
    }
    let toks = match tokenize(gblobs[0].as_slice()) {
        Result::Ok(t) => t,
        Result::Err(e) => {
            return Result::Err(e);
        },
    };
    match WeaponAngles::from_tokens(name, &toks) {
        Result::Ok(a) => Result::Ok(Option::Some(a)),
        Result::Err(e) => Result::Err(e),
    }
}

/// Locate and map the optional `setMiscValues` section of `text`.
fn parse_misc_exec(name: &[u8], text: &[u8]) -> (r: Result<Option<WeaponMisc>, ParseError>)
    ensures
        match r {
            Result::Ok(o) => parse_misc_section(name@, locate(text@, misc_name())) == match o {
                Option::Some(m) => Result::<Option<WeaponMiscV>, ParseError>::Ok(Option::Some(m@)),
                Option::None => Result::Ok(Option::None),
            },
            Result::Err(e) => parse_misc_section(name@, locate(text@, misc_name()))
                == Result::<Option<WeaponMiscV>, ParseError>::Err(e),
        },
{
    let mn = misc_name_bytes();
    let mblobs = locate_exec(text, mn.as_slice());
    if mblobs.len() == 0 {
        return Result::Ok(Option::None);
    }
    proof {
        assert(mblobs.deep_view()[0] =~= mblobs@[0]@);
    }
    let toks = match tokenize(mblobs[0].as_slice()) {
        Result::Ok(t) => t,
        Result::Err(e) => {
            return Result::Err(e);
        },
    };
    match WeaponMisc::from_tokens(name, &toks) {
        Result::Ok(m) => Result::Ok(Option::Some(m)),
        Result::Err(e) => Result::Err(e),
    }
}

/// Locate and map the optional `addAnimTurretSound` section of `text`.
fn parse_sound_exec(name: &[u8], text: &[u8]) -> (r: Result<Option<WeaponTurretSound>, ParseError>)
    ensures
        match r {
            Result::Ok(o) => parse_sound_section(name@, locate(text@, sound_name())) == match o {
                Option::Some(s) => Result::<Option<WeaponTurretSoundV>, ParseError>::Ok(
                    Option::Some(s@),
                ),
                Option::None => Result::Ok(Option::None),
            },
            Result::Err(e) => parse_sound_section(name@, locate(text@, sound_name()))
                == Result::<Option<WeaponTurretSoundV>, ParseError>::Err(e),
        },
{
    let tn = sound_name_bytes();
    let tblobs = locate_exec(text, tn.as_slice());
    if tblobs.len() == 0 {
        return Result::Ok(Option::None);
    }
    proof {
        assert(tblobs.deep_view()[0] =~= tblobs@[0]@);
    }
    let toks = match tokenize(tblobs[0].as_slice()) {
        Result::Ok(t) => t,
        Result::Err(e) => {
            return Result::Err(e);
        },
    };
    match WeaponTurretSound::from_tokens(name, &toks) {
        Result::Ok(s) => Result::Ok(Option::Some(s)),
        Result::Err(e) => Result::Err(e),
    }
}



/// The import-direction reconciliation: copy the section-level scalars onto
/// the weapon record, which owns them at rest.
pub open spec fn pull_in_spec(x: WeaponFileV) -> WeaponFileV {
    WeaponFileV {
        weapon: WeaponV {
            field_penetration: x.weapon_penetration.field_penetration,
            default_penetration: x.weapon_penetration.default_penetration,
            default_accuracy: x.weapon_accuracy.default_accuracy,
            ..x.weapon
        },
        ..x
    }
}

/// The export-direction reconciliation: copy the three scalars from the
/// weapon record back onto the sections the serializer renders them from.
pub open spec fn push_out_spec(x: WeaponFileV) -> WeaponFileV {
    WeaponFileV {
        weapon_penetration: PenColV {
            field_penetration: x.weapon.field_penetration,
            default_penetration: x.weapon.default_penetration,
            ..x.weapon_penetration
        },
        weapon_accuracy: AccColV {
            default_accuracy: x.weapon.default_accuracy,
            ..x.weapon_accuracy
        },
        ..x
    }
}

/// What pull-in does, stated field by field: the weapon record takes the
/// sections' three scalars, every other field of the weapon keeps its
/// value, and no child collection changes.
pub proof fn lemma_pull_in_effect(x: WeaponFileV)
    ensures
        pull_in_spec(x).weapon.field_penetration == x.weapon_penetration.field_penetration,
        pull_in_spec(x).weapon.default_penetration == x.weapon_penetration.default_penetration,
        pull_in_spec(x).weapon.default_accuracy == x.weapon_accuracy.default_accuracy,
        pull_in_spec(x).weapon.reset_scalars() == x.weapon.reset_scalars(),
        pull_in_spec(x).weapon_results == x.weapon_results,
        pull_in_spec(x).weapon_penetration == x.weapon_penetration,
        pull_in_spec(x).weapon_accuracy == x.weapon_accuracy,
        pull_in_spec(x).weapon_angles == x.weapon_angles,
        pull_in_spec(x).weapon_misc == x.weapon_misc,
        pull_in_spec(x).weapon_turret_sound == x.weapon_turret_sound,
{
    assert(pull_in_spec(x).weapon.reset_scalars() =~~= x.weapon.reset_scalars());
}

/// Pushing out after pulling in changes nothing, and in particular hands
/// the sections back exactly the scalars they carried: the reconciliation
/// loses no value in either direction.
pub proof fn lemma_reconcile_round_trip(x: WeaponFileV)
    ensures
        push_out_spec(pull_in_spec(x)) == pull_in_spec(x),
        push_out_spec(pull_in_spec(x)).weapon_penetration == x.weapon_penetration,
        push_out_spec(pull_in_spec(x)).weapon_accuracy == x.weapon_accuracy,
{
    assert(push_out_spec(pull_in_spec(x)) =~~= pull_in_spec(x));
    assert(push_out_spec(pull_in_spec(x)).weapon_penetration =~~= x.weapon_penetration);
    assert(push_out_spec(pull_in_spec(x)).weapon_accuracy =~~= x.weapon_accuracy);
}

/// Results ordered by their explicit sequence attribute.
pub open spec fn sorted_by_position(s: Seq<WeaponResultV>) -> bool {
    forall|i: int, j: int| 0 <= i < j < s.len() ==> s[i].position <= s[j].position
}

/// Sort result records by position: same records, now in position order.
pub fn sort_results(input: Vec<WeaponResult>) -> (r: Vec<WeaponResult>)
    ensures
        r@.len() == input@.len(),
        result_seq_view(r@).to_multiset() == result_seq_view(input@).to_multiset(),
        sorted_by_position(result_seq_view(r@)),
{
    broadcast use vstd::seq_lib::group_to_multiset_ensures;

    let ghost full = result_seq_view(input@).to_multiset();
    let mut rem = input;
    let mut out: Vec<WeaponResult> = Vec::new();
    proof {
        assert(result_seq_view(out@) =~~= Seq::<WeaponResultV>::empty());
        assert(result_seq_view(out@).to_multiset().add(result_seq_view(rem@).to_multiset())
            =~= full);
    }
    while rem.len() > 0
        invariant
            result_seq_view(out@).to_multiset().add(result_seq_view(rem@).to_multiset()) == full,
            out@.len() + rem@.len() == input@.len(),
            sorted_by_position(result_seq_view(out@)),
            forall|k: int, l: int|
                0 <= k < out@.len() && 0 <= l < rem@.len() ==> result_seq_view(out@)[k].position
                    <= result_seq_view(rem@)[l].position,
        decreases rem@.len(),
    {
        let mut m: usize = 0;
        let mut i: usize = 1;
        while i < rem.len()
            invariant
                0 <= m < i <= rem@.len(),
                forall|l: int|
                    0 <= l < i ==> result_seq_view(rem@)[m as int].position <= result_seq_view(
                        rem@,
                    )[l].position,
            decreases rem@.len() - i,
        {
            if rem[i].position < rem[m].position {
                m = i;
            }
            i = i + 1;
        }
        let ghost pre_rem = result_seq_view(rem@);
        let ghost pre_out = result_seq_view(out@);
        let e = rem.remove(m);
        let ghost ev = e@;
        out.push(e);
        proof {
            assert(result_seq_view(rem@) =~~= pre_rem.remove(m as int));
            assert(result_seq_view(out@) =~~= pre_out.push(ev));
            assert(pre_rem[m as int] == ev);
            assert(result_seq_view(out@).to_multiset() =~= pre_out.to_multiset().insert(ev));
            assert(result_seq_view(rem@).to_multiset() =~= pre_rem.to_multiset().remove(ev));
            assert(pre_out.to_multiset().insert(ev).add(pre_rem.to_multiset().remove(ev))
                =~= pre_out.to_multiset().add(pre_rem.to_multiset())) by {
                assert(pre_rem.to_multiset().count(ev) >= 1) by {
                    assert(pre_rem.contains(ev));
                }
            }
            assert(sorted_by_position(result_seq_view(out@))) by {
                assert(forall|k: int|
                    0 <= k < pre_out.len() ==> (#[trigger] pre_out[k]).position <= ev.position);
            }
        }
    }
    proof {
        assert(result_seq_view(rem@) =~~= Seq::<WeaponResultV>::empty());
        assert(result_seq_view(out@).to_multiset().add(Multiset::<WeaponResultV>::empty())
            =~= result_seq_view(out@).to_multiset());
    }
    out
}

/// One sequence of records per position permutation: a position-sorted
/// sequence drawn from the same records as one whose positions run `base`,
/// `base+1`, ... in order is that sequence itself. This is what lets an
/// export after a store round trip recover source order from the explicit
/// sequence attribute alone.
pub proof fn lemma_position_order_unique(a: Seq<WeaponResultV>, b: Seq<WeaponResultV>, base: int)
    requires
        a.to_multiset() == b.to_multiset(),
        sorted_by_position(a),
        forall|i: int| 0 <= i < b.len() ==> (#[trigger] b[i]).position == base + i,
    ensures
        a == b,
    decreases b.len(),
{
    broadcast use vstd::seq_lib::group_to_multiset_ensures;

    assert(a.len() == b.len()) by {
        assert(a.to_multiset().len() == a.len());
        assert(b.to_multiset().len() == b.len());
    }
    if b.len() == 0 {
        assert(a =~~= b);
    } else {
        assert(a[0] == b[0]) by {
            assert(b.contains(b[0])) by {
                assert(b[0] == b[0]);
            }
            assert(a.to_multiset().count(b[0]) > 0);
            assert(a.contains(b[0]));
            let i = choose|i: int| 0 <= i < a.len() && a[i] == b[0];
            assert(a[0].position <= a[i].position);
            assert(b.to_multiset().count(a[0]) > 0) by {
                assert(a.contains(a[0]));
            }
            assert(b.contains(a[0]));
            let j = choose|j: int| 0 <= j < b.len() && b[j] == a[0];
            assert(a[0].position == base + j);
            assert(a[i].position == base);
            assert(base + j <= base);
            assert(j == 0);
        }
        let a1 = a.drop_first();
        let b1 = b.drop_first();
        assert(a1.to_multiset() =~= a.to_multiset().remove(a[0])) by {
            assert(a.remove(0) =~~= a1);
        }
        assert(b1.to_multiset() =~= b.to_multiset().remove(b[0])) by {
            assert(b.remove(0) =~~= b1);
        }
        assert(forall|k: int, l: int| 0 <= k < l < a1.len() ==> a1[k].position <= a1[l].position)
            by {
            assert(forall|k: int| 0 <= k < a1.len() ==> a1[k] == a[k + 1]);
        }
        assert(forall|i: int| 0 <= i < b1.len() ==> (#[trigger] b1[i]).position == base + 1 + i)
            by {
            assert(forall|i: int| 0 <= i < b1.len() ==> b1[i] == b[i + 1]);
        }
        lemma_position_order_unique(a1, b1, base + 1);
        assert(forall|k: int| 0 <= k < a.len() ==> a[k] == b[k]) by {
            assert(forall|k: int| 1 <= k < a.len() ==> a[k] == a1[k - 1] && b[k] == b1[k - 1]);
        }
        assert(a =~~= b);
    }
}

impl WeaponFile {
    /// Parse one weapon source text under the identity `name`.
    pub fn parse(name: &[u8], text: &[u8]) -> (r: Result<WeaponFile, ParseError>)
        ensures
            match r {
                Result::Ok(x) => parse_spec(name@, text@) == Result::<WeaponFileV,
                    ParseError>::Ok(x@),
                Result::Err(e) => parse_spec(name@, text@) == Result::<WeaponFileV,
                    ParseError>::Err(e),
            },
    {
        let sn = start_name_bytes();
        let wblobs = locate_exec(text, sn.as_slice());
        if wblobs.len() == 0 {
            return Result::Err(ParseError::MandatoryStatementMissing);
        }
        proof {
            assert(wblobs.deep_view()[0] =~= wblobs@[0]@);
        }
        let wtoks = match tokenize(wblobs[0].as_slice()) {
            Result::Ok(t) => t,
            Result::Err(e) => {
                return Result::Err(e);
            },
        };
        let weapon = match Weapon::from_tokens(name, &wtoks) {
            Result::Ok(w) => w,
            Result::Err(e) => {
                return Result::Err(e);
            },
        };
        let results = match parse_results_exec(name, text) {
            Result::Ok(v) => v,
            Result::Err(e) => {
                return Result::Err(e);
            },
        };
        let pen = match parse_pen_exec(name, text) {
            Result::Ok(c) => c,
            Result::Err(e) => {
                return Result::Err(e);
            },
        };
        let acc = match parse_acc_exec(name, text) {
            Result::Ok(c) => c,
            Result::Err(e) => {
                return Result::Err(e);
            },
        };
        let angles = match parse_angles_exec(name, text) {
            Result::Ok(o) => o,
            Result::Err(e) => {
                return Result::Err(e);
            },
        };
        let misc = match parse_misc_exec(name, text) {
            Result::Ok(o) => o,
            Result::Err(e) => {
                return Result::Err(e);
            },
        };
        let sound = match parse_sound_exec(name, text) {
            Result::Ok(o) => o,
            Result::Err(e) => {
                return Result::Err(e);
            },
        };
        let x = WeaponFile {
            weapon: weapon,
            weapon_results: WeaponResultCollection { weapon_results: results },
            weapon_penetration: pen,
            weapon_accuracy: acc,
            weapon_angles: angles,
            weapon_misc: misc,
            weapon_turret_sound: sound,
        };
        proof {
            assert(parse_spec(name@, text@)->Ok_0 =~= x@);
        }
        Result::Ok(x)
    }

    /// Render this weapon file as canonical statement text.
    #[verifier::rlimit(100)]
    pub fn serialize(&self) -> (r: Vec<u8>)
        ensures
            r@ == ser_file_spec(self@),
    {
        let mut out: Vec<u8> = Vec::new();
        let ghost mut stmts: Seq<GStmt> = Seq::empty();
        let sn = start_name_bytes();
        let wtoks = self.weapon.to_tokens();
        append_stmt(&mut out, sn.as_slice(), &wtoks, true);
        proof {
            stmts = stmts.push(GStmt { name: start_name(), args: weapon_tokens(self.weapon@) });
            lemma_ser_stmts_snoc(Seq::empty(), GStmt {
                name: start_name(),
                args: weapon_tokens(self.weapon@),
            });
            assert(out@ == ser_stmts(stmts));
        }
        let rn = result_name_bytes();
        let mut i: usize = 0;
        proof {
            assert(self@.weapon_results.subrange(0, 0) =~~= Seq::<WeaponResultV>::empty());
            assert(stmts =~~= seq![
                GStmt { name: start_name(), args: weapon_tokens(self.weapon@) },
            ].add(
                self@.weapon_results.subrange(0, 0).map_values(
                    |r: WeaponResultV| GStmt { name: result_name(), args: result_tokens(r) },
                ),
            ));
        }
        while i < self.weapon_results.weapon_results.len()
            invariant
                0 <= i <= self.weapon_results.weapon_results@.len(),
                out@ == ser_stmts(stmts),
                stmts.len() == i + 1,
                stmts =~~= seq![
                    GStmt { name: start_name(), args: weapon_tokens(self.weapon@) },
                ].add(
                    self@.weapon_results.subrange(0, i as int).map_values(
                        |r: WeaponResultV| GStmt { name: result_name(), args: result_tokens(r) },
                    ),
                ),
            decreases self.weapon_results.weapon_results@.len() - i,
        {
            let ghost pre = stmts;
            let r = &self.weapon_results.weapon_results[i];
            let rtoks = r.to_tokens();
            proof {
                assert(result_tokens(r@).len() == 6);
            }
            append_stmt(&mut out, rn.as_slice(), &rtoks, false);
            proof {
                let g = GStmt { name: result_name(), args: result_tokens(r@) };
                stmts = stmts.push(g);
                lemma_ser_stmts_snoc(pre, g);
                assert(self@.weapon_results[i as int] == r@);
                assert(self@.weapon_results.subrange(0, i + 1) =~~= self@.weapon_results.subrange(
                    0,
                    i as int,
                ).push(r@));
                assert(self@.weapon_results.subrange(0, i + 1).map_values(
                    |r: WeaponResultV| GStmt { name: result_name(), args: result_tokens(r) },
                ) =~~= self@.weapon_results.subrange(0, i as int).map_values(
                    |r: WeaponResultV| GStmt { name: result_name(), args: result_tokens(r) },
                ).push(g));
                assert(stmts =~~= seq![
                    GStmt { name: start_name(), args: weapon_tokens(self.weapon@) },
                ].add(
                    self@.weapon_results.subrange(0, i + 1).map_values(
                        |r: WeaponResultV| GStmt { name: result_name(), args: result_tokens(r) },
                    ),
                ));
            }
            i = i + 1;
        }
        proof {
            assert(self@.weapon_results.subrange(0, self@.weapon_results.len() as int)
                =~~= self@.weapon_results);
        }
        let pn = pen_name_bytes();
        let ptoks = self.weapon_penetration.to_tokens();
        proof {
            assert(pen_tokens(self@.weapon_penetration).len() >= 2);
        }
        append_stmt(&mut out, pn.as_slice(), &ptoks, false);
        proof {
            let g = GStmt { name: pen_name(), args: pen_tokens(self@.weapon_penetration) };
            lemma_ser_stmts_snoc(stmts, g);
            stmts = stmts.push(g);
        }
        let an = acc_name_bytes();
        let atoks = self.weapon_accuracy.to_tokens();
        proof {
            assert(acc_tokens(self@.weapon_accuracy).len() >= 1);
        }
        append_stmt(&mut out, an.as_slice(), &atoks, false);
        proof {
            let g = GStmt { name: acc_name(), args: acc_tokens(self@.weapon_accuracy) };
            lemma_ser_stmts_snoc(stmts, g);
            stmts = stmts.push(g);
        }
        match &self.weapon_angles {
            Option::Some(a) => {
                let gn = angles_name_bytes();
                let gtoks = a.to_tokens();
                proof {
                    assert(angles_tokens(a@).len() == 5);
                }
                append_stmt(&mut out, gn.as_slice(), &gtoks, false);
                proof {
                    let g = GStmt { name: angles_name(), args: angles_tokens(a@) };
                    lemma_ser_stmts_snoc(stmts, g);
                    stmts = stmts.push(g);
                }
            },
            Option::None => {},
        }
        match &self.weapon_misc {
            Option::Some(m) => {
                let mn = misc_name_bytes();
                let mtoks = m.to_tokens();
                proof {
                    assert(misc_tokens(m@).len() == 2);
                }
                append_stmt(&mut out, mn.as_slice(), &mtoks, false);
                proof {
                    let g = GStmt { name: misc_name(), args: misc_tokens(m@) };
                    lemma_ser_stmts_snoc(stmts, g);
                    stmts = stmts.push(g);
                }
            },
            Option::None => {},
        }
        match &self.weapon_turret_sound {
            Option::Some(s) => {
                let tn = sound_name_bytes();
                let ttoks = s.to_tokens();
                proof {
                    assert(sound_tokens(s@).len() == 1);
                }
                append_stmt(&mut out, tn.as_slice(), &ttoks, false);
                proof {
                    let g = GStmt { name: sound_name(), args: sound_tokens(s@) };
                    lemma_ser_stmts_snoc(stmts, g);
                    stmts = stmts.push(g);
                }
            },
            Option::None => {},
        }
        proof {
            assert(stmts =~~= file_stmts(self@));
        }
        out
    }

    /// Pull the section-level scalars onto the weapon record (import
    /// direction). After this the sections' copies are stale until the next
    /// push-out.
    pub fn pull_in(&mut self)
        ensures
            final(self)@ == pull_in_spec(old(self)@),
    {
        self.weapon.field_penetration = self.weapon_penetration.field_penetration;
        self.weapon.default_penetration = self.weapon_penetration.default_penetration.clone();
        self.weapon.default_accuracy = self.weapon_accuracy.default_accuracy.clone();
        proof {
            assert(self@ =~~= pull_in_spec(old(self)@));
        }
    }

    /// Push the weapon record's scalars back onto the sections (export
    /// direction), so the serializer renders them where the text format
    /// keeps them.
    pub fn push_out(&mut self)
        ensures
            final(self)@ == push_out_spec(old(self)@),
    {
        self.weapon_penetration.field_penetration = self.weapon.field_penetration;
        self.weapon_penetration.default_penetration = self.weapon.default_penetration.clone();
        self.weapon_accuracy.default_accuracy = self.weapon.default_accuracy.clone();
        proof {
            assert(self@ =~~= push_out_spec(old(self)@));
        }
    }

    /// Build the aggregate from independently produced records, as loaded
    /// from a store: the results are ordered by their explicit sequence
    /// attribute, everything else is taken as given.
    pub fn assemble(
        weapon: Weapon,
        results: Vec<WeaponResult>,
        pen: WeaponPenetrationCollection,
        acc: WeaponAccuracyCollection,
        angles: Option<WeaponAngles>,
        misc: Option<WeaponMisc>,
        sound: Option<WeaponTurretSound>,
    ) -> (r: WeaponFile)
        ensures
            r@.weapon == weapon@,
            r@.weapon_results.to_multiset() == result_seq_view(results@).to_multiset(),
            sorted_by_position(r@.weapon_results),
            r@.weapon_penetration == pen@,
            r@.weapon_accuracy == acc@,
            r@.weapon_angles == match angles {
                Option::Some(a) => Option::Some(a@),
                Option::None => Option::<crate::weapon_angles::WeaponAnglesV>::None,
            },
            r@.weapon_misc == match misc {
                Option::Some(m) => Option::Some(m@),
                Option::None => Option::<crate::weapon_misc::WeaponMiscV>::None,
            },
            r@.weapon_turret_sound == match sound {
                Option::Some(s) => Option::Some(s@),
                Option::None => Option::<crate::weapon_turret_sound::WeaponTurretSoundV>::None,
            },
    {
        let ordered = sort_results(results);
        WeaponFile {
            weapon: weapon,
            weapon_results: WeaponResultCollection { weapon_results: ordered },
            weapon_penetration: pen,
            weapon_accuracy: acc,
            weapon_angles: angles,
            weapon_misc: misc,
            weapon_turret_sound: sound,
        }
    }
}

} // verus!
