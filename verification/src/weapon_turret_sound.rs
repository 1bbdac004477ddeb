//! The optional `addAnimTurretSound` section: the turret animation sound
//! name, at most one per weapon.

use vstd::prelude::*;

use crate::ascii::{copy_vec, check_field_str, is_field_str};
use crate::num::{is_float_lit, Num};
use crate::num::check_float_lit;
use crate::ser::quoted;
use crate::tokenizer::{clean_token, token_clean};
use crate::ParseError;

verus! {

/// One `addAnimTurretSound` record.
#[derive(Debug)]
pub struct WeaponTurretSound {
    /// `weapon_name`.
    pub weapon_name: Vec<u8>,
    /// `anim_turret_sound`.
    pub anim_turret_sound: Vec<u8>,
}

/// The mathematical model of a `WeaponTurretSound`.
#[verifier::ext_equal]
pub ghost struct WeaponTurretSoundV {
    /// `weapon_name`.
    pub weapon_name: Seq<u8>,
    /// `anim_turret_sound`.
    pub anim_turret_sound: Seq<u8>,
}

impl View for WeaponTurretSound {
    type V = WeaponTurretSoundV;

    open spec fn view(&self) -> WeaponTurretSoundV {
        WeaponTurretSoundV {
            weapon_name: self.weapon_name@,
            anim_turret_sound: self.anim_turret_sound@,
        }
    }
}

impl WeaponTurretSoundV {
    /// Every statement field holds a value its position can carry. The
    /// `weapon_name` identity comes from the source file and is
    /// unconstrained.
    pub open spec fn wf(self) -> bool {
        &&& true
        &&& is_field_str(self.anim_turret_sound)
    }
}

/// Whether each cleaned token parses as the type its position declares.
pub open spec fn sound_toks_ok(toks: Seq<Seq<u8>>) -> bool {
        &&& is_field_str(toks[0])
}

/// Map the cleaned tokens of a `addAnimTurretSound` statement to a record.
pub open spec fn map_sound(name: Seq<u8>, toks: Seq<Seq<u8>>) -> Result<WeaponTurretSoundV, ParseError> {
    if toks.len() != 1 {
        Result::Err(ParseError::ArityMismatch)
    } else if sound_toks_ok(toks) {
        Result::Ok(WeaponTurretSoundV {
            weapon_name: name,
            anim_turret_sound: toks[0],
        })
    } else {
        Result::Err(ParseError::FieldTypeError)
    }
}

/// The canonical argument tokens, in statement order.
pub open spec fn sound_tokens(v: WeaponTurretSoundV) -> Seq<Seq<u8>> {
    seq![
        quoted(v.anim_turret_sound),
    ]
}

impl WeaponTurretSound {
    /// Map the cleaned tokens of a `addAnimTurretSound` statement, for the weapon
    /// named `name`.
    pub fn from_tokens(name: &[u8], toks: &Vec<Vec<u8>>) -> (r: Result<WeaponTurretSound, ParseError>)
        ensures
            match r {
                Result::Ok(w) => map_sound(name@, toks.deep_view()) == Result::<WeaponTurretSoundV,
                    ParseError>::Ok(w@),
                Result::Err(e) => map_sound(name@, toks.deep_view()) == Result::<WeaponTurretSoundV,
                    ParseError>::Err(e),
            },
    {
    if toks.len() != 1 {
        return Result::Err(ParseError::ArityMismatch);
    }
    proof {
        assert(toks.deep_view()[0] =~= toks@[0]@);
    }
    if !check_field_str(toks[0].as_slice()) {
        return Result::Err(ParseError::FieldTypeError);
    }
    let w = WeaponTurretSound {
        weapon_name: vstd::slice::slice_to_vec(name),
        anim_turret_sound: copy_vec(&toks[0]),
    };
    proof {
        assert(sound_toks_ok(toks.deep_view()));
        assert(map_sound(name@, toks.deep_view())->Ok_0 =~= w@);
    }
    Result::Ok(w)
    }

    /// The canonical argument tokens of this record.
    pub fn to_tokens(&self) -> (r: Vec<Vec<u8>>)
        ensures
            r.deep_view() == sound_tokens(self@),
    {
        let mut r: Vec<Vec<u8>> = Vec::new();
        let mut t0: Vec<u8> = Vec::new();
        crate::ser::push_quoted(&mut t0, self.anim_turret_sound.as_slice());
        r.push(t0);
        proof {
            assert(r.deep_view().len() == 1);
            assert(r.deep_view()[0] =~= quoted(self.anim_turret_sound@));
            assert(r.deep_view() =~~= sound_tokens(self@));
        }
        r
    }
}

/// The canonical tokens of a well-formed record are clean, and mapping them
/// back (cleaned) recovers the record.
pub proof fn lemma_sound_round_trip(v: WeaponTurretSoundV)
    requires
        v.wf(),
    ensures
        sound_tokens(v).len() == 1,
        forall|k: int| 0 <= k < 1 ==> token_clean(#[trigger] sound_tokens(v)[k]),
        map_sound(v.weapon_name, sound_tokens(v).map_values(|t: Seq<u8>| clean_token(t)))
            == Result::<WeaponTurretSoundV, ParseError>::Ok(v),
{
    let toks = sound_tokens(v);
    let ct = toks.map_values(|t: Seq<u8>| clean_token(t));
    crate::ser::lemma_quoted_clean(v.anim_turret_sound);
    assert(ct[0] == v.anim_turret_sound);
    assert(ct.len() == 1);
    assert(sound_toks_ok(ct));
    assert(map_sound(v.weapon_name, ct)->Ok_0 =~= v);
    assert(forall|k: int| 0 <= k < 1 ==> token_clean(#[trigger] toks[k])) by {
        assert(token_clean(toks[0]));
    }
}

} // verus!