//! The optional `setAngles` section: the firing cone and the azimuth and
//! declination limits of a weapon, at most one per weapon.

use vstd::prelude::*;

use crate::ascii::{copy_vec, check_field_str, is_field_str};
use crate::num::{is_float_lit, Num};
use crate::num::check_float_lit;
use crate::ser::quoted;
use crate::tokenizer::{clean_token, token_clean};
use crate::ParseError;

verus! {

/// One `setAngles` record.
#[derive(Debug)]
pub struct WeaponAngles {
    /// `weapon_name`.
    pub weapon_name: Vec<u8>,
    /// `firing_cone`.
    pub firing_cone: Num,
    /// `min_azimuth`.
    pub min_azimuth: Num,
    /// `max_azimuth`.
    pub max_azimuth: Num,
    /// `min_declination`.
    pub min_declination: Num,
    /// `max_declination`.
    pub max_declination: Num,
}

/// The mathematical model of a `WeaponAngles`.
#[verifier::ext_equal]
pub ghost struct WeaponAnglesV {
    /// `weapon_name`.
    pub weapon_name: Seq<u8>,
    /// `firing_cone`.
    pub firing_cone: Seq<u8>,
    /// `min_azimuth`.
    pub min_azimuth: Seq<u8>,
    /// `max_azimuth`.
    pub max_azimuth: Seq<u8>,
    /// `min_declination`.
    pub min_declination: Seq<u8>,
    /// `max_declination`.
    pub max_declination: Seq<u8>,
}

impl View for WeaponAngles {
    type V = WeaponAnglesV;

    open spec fn view(&self) -> WeaponAnglesV {
        WeaponAnglesV {
            weapon_name: self.weapon_name@,
            firing_cone: self.firing_cone@,
            min_azimuth: self.min_azimuth@,
            max_azimuth: self.max_azimuth@,
            min_declination: self.min_declination@,
            max_declination: self.max_declination@,
        }
    }
}

impl WeaponAnglesV {
    /// Every statement field holds a value its position can carry. The
    /// `weapon_name` identity comes from the source file and is
    /// unconstrained.
    pub open spec fn wf(self) -> bool {
        &&& true
        &&& is_float_lit(self.firing_cone)
        &&& is_float_lit(self.min_azimuth)
        &&& is_float_lit(self.max_azimuth)
        &&& is_float_lit(self.min_declination)
        &&& is_float_lit(self.max_declination)
    }
}

/// Whether each cleaned token parses as the type its position declares.
pub open spec fn angles_toks_ok(toks: Seq<Seq<u8>>) -> bool {
        &&& is_float_lit(toks[0])
        &&& is_float_lit(toks[1])
        &&& is_float_lit(toks[2])
        &&& is_float_lit(toks[3])
        &&& is_float_lit(toks[4])
}

/// Map the cleaned tokens of a `setAngles` statement to a record.
pub open spec fn map_angles(name: Seq<u8>, toks: Seq<Seq<u8>>) -> Result<WeaponAnglesV, ParseError> {
    if toks.len() != 5 {
        Result::Err(ParseError::ArityMismatch)
    } else if angles_toks_ok(toks) {
        Result::Ok(WeaponAnglesV {
            weapon_name: name,
            firing_cone: toks[0],
            min_azimuth: toks[1],
            max_azimuth: toks[2],
            min_declination: toks[3],
            max_declination: toks[4],
        })
    } else {
        Result::Err(ParseError::FieldTypeError)
    }
}

/// The canonical argument tokens, in statement order.
pub open spec fn angles_tokens(v: WeaponAnglesV) -> Seq<Seq<u8>> {
    seq![
        v.firing_cone,
        v.min_azimuth,
        v.max_azimuth,
        v.min_declination,
        v.max_declination,
    ]
}

impl WeaponAngles {
    /// Map the cleaned tokens of a `setAngles` statement, for the weapon
    /// named `name`.
    pub fn from_tokens(name: &[u8], toks: &Vec<Vec<u8>>) -> (r: Result<WeaponAngles, ParseError>)
        ensures
            match r {
                Result::Ok(w) => map_angles(name@, toks.deep_view()) == Result::<WeaponAnglesV,
                    ParseError>::Ok(w@),
                Result::Err(e) => map_angles(name@, toks.deep_view()) == Result::<WeaponAnglesV,
                    ParseError>::Err(e),
            },
    {
    if toks.len() != 5 {
        return Result::Err(ParseError::ArityMismatch);
    }
    proof {
        assert(toks.deep_view()[0] =~= toks@[0]@);
        assert(toks.deep_view()[1] =~= toks@[1]@);
        assert(toks.deep_view()[2] =~= toks@[2]@);
        assert(toks.deep_view()[3] =~= toks@[3]@);
        assert(toks.deep_view()[4] =~= toks@[4]@);
    }
    let firing_cone = match Num::from_token(copy_vec(&toks[0])) {
        Option::Some(x) => x,
        Option::None => {
            return Result::Err(ParseError::FieldTypeError);
        },
    };
    let min_azimuth = match Num::from_token(copy_vec(&toks[1])) {
        Option::Some(x) => x,
        Option::None => {
            return Result::Err(ParseError::FieldTypeError);
        },
    };
    let max_azimuth = match Num::from_token(copy_vec(&toks[2])) {
        Option::Some(x) => x,
        Option::None => {
            return Result::Err(ParseError::FieldTypeError);
        },
    };
    let min_declination = match Num::from_token(copy_vec(&toks[3])) {
        Option::Some(x) => x,
        Option::None => {
            return Result::Err(ParseError::FieldTypeError);
        },
    };
    let max_declination = match Num::from_token(copy_vec(&toks[4])) {
        Option::Some(x) => x,
        Option::None => {
            return Result::Err(ParseError::FieldTypeError);
        },
    };
    let w = WeaponAngles {
        weapon_name: vstd::slice::slice_to_vec(name),
        firing_cone: firing_cone,
        min_azimuth: min_azimuth,
        max_azimuth: max_azimuth,
        min_declination: min_declination,
        max_declination: max_declination,
    };
    proof {
        assert(angles_toks_ok(toks.deep_view()));
        assert(map_angles(name@, toks.deep_view())->Ok_0 =~= w@);
    }
    Result::Ok(w)
    }

    /// The canonical argument tokens of this record.
    pub fn to_tokens(&self) -> (r: Vec<Vec<u8>>)
        ensures
            r.deep_view() == angles_tokens(self@),
    {
        let mut r: Vec<Vec<u8>> = Vec::new();
        r.push(copy_vec(&self.firing_cone.lit));
        r.push(copy_vec(&self.min_azimuth.lit));
        r.push(copy_vec(&self.max_azimuth.lit));
        r.push(copy_vec(&self.min_declination.lit));
        r.push(copy_vec(&self.max_declination.lit));
        proof {
            assert(r.deep_view().len() == 5);
            assert(r.deep_view()[0] =~= self.firing_cone@);
            assert(r.deep_view()[1] =~= self.min_azimuth@);
            assert(r.deep_view()[2] =~= self.max_azimuth@);
            assert(r.deep_view()[3] =~= self.min_declination@);
            assert(r.deep_view()[4] =~= self.max_declination@);
            assert(r.deep_view() =~~= angles_tokens(self@));
        }
        r
    }
}

/// The canonical tokens of a well-formed record are clean, and mapping them
/// back (cleaned) recovers the record.
pub proof fn lemma_angles_round_trip(v: WeaponAnglesV)
    requires
        v.wf(),
    ensures
        angles_tokens(v).len() == 5,
        forall|k: int| 0 <= k < 5 ==> token_clean(#[trigger] angles_tokens(v)[k]),
        map_angles(v.weapon_name, angles_tokens(v).map_values(|t: Seq<u8>| clean_token(t)))
            == Result::<WeaponAnglesV, ParseError>::Ok(v),
{
    let toks = angles_tokens(v);
    let ct = toks.map_values(|t: Seq<u8>| clean_token(t));
    crate::ser::lemma_lit_clean(v.firing_cone);
    assert(ct[0] == v.firing_cone);
    crate::ser::lemma_lit_clean(v.min_azimuth);
    assert(ct[1] == v.min_azimuth);
    crate::ser::lemma_lit_clean(v.max_azimuth);
    assert(ct[2] == v.max_azimuth);
    crate::ser::lemma_lit_clean(v.min_declination);
    assert(ct[3] == v.min_declination);
    crate::ser::lemma_lit_clean(v.max_declination);
    assert(ct[4] == v.max_declination);
    assert(ct.len() == 5);
    assert(angles_toks_ok(ct));
    assert(map_angles(v.weapon_name, ct)->Ok_0 =~= v);
    assert(forall|k: int| 0 <= k < 5 ==> token_clean(#[trigger] toks[k])) by {
        assert(token_clean(toks[0]));
        assert(token_clean(toks[1]));
        assert(token_clean(toks[2]));
        assert(token_clean(toks[3]));
        assert(token_clean(toks[4]));
    }
}

} // verus!