//! The optional `setMiscValues` section: recoil distance and slave fire
//! delay, at most one per weapon.

use vstd::prelude::*;

use crate::ascii::{copy_vec, check_field_str, is_field_str};
use crate::num::{is_float_lit, Num};
use crate::num::check_float_lit;
use crate::ser::quoted;
use crate::tokenizer::{clean_token, token_clean};
use crate::ParseError;

verus! {

/// One `setMiscValues` record.
#[derive(Debug)]
pub struct WeaponMisc {
    /// `weapon_name`.
    pub weapon_name: Vec<u8>,
    /// `recoil_distance`.
    pub recoil_distance: Num,
    /// `slave_fire_delay`.
    pub slave_fire_delay: Num,
}

/// The mathematical model of a `WeaponMisc`.
#[verifier::ext_equal]
pub ghost struct WeaponMiscV {
    /// `weapon_name`.
    pub weapon_name: Seq<u8>,
    /// `recoil_distance`.
    pub recoil_distance: Seq<u8>,
    /// `slave_fire_delay`.
    pub slave_fire_delay: Seq<u8>,
}

impl View for WeaponMisc {
    type V = WeaponMiscV;

    open spec fn view(&self) -> WeaponMiscV {
        WeaponMiscV {
            weapon_name: self.weapon_name@,
            recoil_distance: self.recoil_distance@,
            slave_fire_delay: self.slave_fire_delay@,
        }
    }
}

impl WeaponMiscV {
    /// Every statement field holds a value its position can carry. The
    /// `weapon_name` identity comes from the source file and is
    /// unconstrained.
    pub open spec fn wf(self) -> bool {
        &&& true
        &&& is_float_lit(self.recoil_distance)
        &&& is_float_lit(self.slave_fire_delay)
    }
}

/// Whether each cleaned token parses as the type its position declares.
pub open spec fn misc_toks_ok(toks: Seq<Seq<u8>>) -> bool {
        &&& is_float_lit(toks[0])
        &&& is_float_lit(toks[1])
}

/// Map the cleaned tokens of a `setMiscValues` statement to a record.
pub open spec fn map_misc(name: Seq<u8>, toks: Seq<Seq<u8>>) -> Result<WeaponMiscV, ParseError> {
    if toks.len() != 2 {
        Result::Err(ParseError::ArityMismatch)
    } else if misc_toks_ok(toks) {
        Result::Ok(WeaponMiscV {
            weapon_name: name,
            recoil_distance: toks[0],
            slave_fire_delay: toks[1],
        })
    } else {
        Result::Err(ParseError::FieldTypeError)
    }
}

/// The canonical argument tokens, in statement order.
pub open spec fn misc_tokens(v: WeaponMiscV) -> Seq<Seq<u8>> {
    seq![
        v.recoil_distance,
        v.slave_fire_delay,
    ]
}

impl WeaponMisc {
    /// Map the cleaned tokens of a `setMiscValues` statement, for the weapon
    /// named `name`.
    pub fn from_tokens(name: &[u8], toks: &Vec<Vec<u8>>) -> (r: Result<WeaponMisc, ParseError>)
        ensures
            match r {
                Result::Ok(w) => map_misc(name@, toks.deep_view()) == Result::<WeaponMiscV,
                    ParseError>::Ok(w@),
                Result::Err(e) => map_misc(name@, toks.deep_view()) == Result::<WeaponMiscV,
                    ParseError>::Err(e),
            },
    {
    if toks.len() != 2 {
        return Result::Err(ParseError::ArityMismatch);
    }
    proof {
        assert(toks.deep_view()[0] =~= toks@[0]@);
        assert(toks.deep_view()[1] =~= toks@[1]@);
    }
    let recoil_distance = match Num::from_token(copy_vec(&toks[0])) {
        Option::Some(x) => x,
        Option::None => {
            return Result::Err(ParseError::FieldTypeError);
        },
    };
    let slave_fire_delay = match Num::from_token(copy_vec(&toks[1])) {
        Option::Some(x) => x,
        Option::None => {
            return Result::Err(ParseError::FieldTypeError);
        },
    };
    let w = WeaponMisc {
        weapon_name: vstd::slice::slice_to_vec(name),
        recoil_distance: recoil_distance,
        slave_fire_delay: slave_fire_delay,
    };
    proof {
        assert(misc_toks_ok(toks.deep_view()));
        assert(map_misc(name@, toks.deep_view())->Ok_0 =~= w@);
    }
    Result::Ok(w)
    }

    /// The canonical argument tokens of this record.
    pub fn to_tokens(&self) -> (r: Vec<Vec<u8>>)
        ensures
            r.deep_view() == misc_tokens(self@),
    {
        let mut r: Vec<Vec<u8>> = Vec::new();
        r.push(copy_vec(&self.recoil_distance.lit));
        r.push(copy_vec(&self.slave_fire_delay.lit));
        proof {
            assert(r.deep_view().len() == 2);
            assert(r.deep_view()[0] =~= self.recoil_distance@);
            assert(r.deep_view()[1] =~= self.slave_fire_delay@);
            assert(r.deep_view() =~~= misc_tokens(self@));
        }
        r
    }
}

/// The canonical tokens of a well-formed record are clean, and mapping them
/// back (cleaned) recovers the record.
pub proof fn lemma_misc_round_trip(v: WeaponMiscV)
    requires
        v.wf(),
    ensures
        misc_tokens(v).len() == 2,
        forall|k: int| 0 <= k < 2 ==> token_clean(#[trigger] misc_tokens(v)[k]),
        map_misc(v.weapon_name, misc_tokens(v).map_values(|t: Seq<u8>| clean_token(t)))
            == Result::<WeaponMiscV, ParseError>::Ok(v),
{
    let toks = misc_tokens(v);
    let ct = toks.map_values(|t: Seq<u8>| clean_token(t));
    crate::ser::lemma_lit_clean(v.recoil_distance);
    assert(ct[0] == v.recoil_distance);
    crate::ser::lemma_lit_clean(v.slave_fire_delay);
    assert(ct[1] == v.slave_fire_delay);
    assert(ct.len() == 2);
    assert(misc_toks_ok(ct));
    assert(map_misc(v.weapon_name, ct)->Ok_0 =~= v);
    assert(forall|k: int| 0 <= k < 2 ==> token_clean(#[trigger] toks[k])) by {
        assert(token_clean(toks[0]));
        assert(token_clean(toks[1]));
    }
}

} // verus!