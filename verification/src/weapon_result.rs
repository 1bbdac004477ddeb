//! The repeatable `AddWeaponResult` statement: a weapon's effect records.
//! Source order is meaningful, so each record carries an explicit position;
//! the store gives no ordering guarantee, and the position is what lets an
//! export recover the original sequence.

use vstd::prelude::*;

use crate::ascii::{copy_vec, check_field_str, is_field_str};
use crate::num::{is_float_lit, Num};
use crate::ser::quoted;
use crate::tokenizer::{clean_token, token_clean};
use crate::ParseError;

verus! {

/// One `AddWeaponResult` record.
#[derive(Debug)]
pub struct WeaponResult {
    /// The owning weapon's name.
    pub weapon_name: Vec<u8>,
    /// `condition`.
    pub condition: Vec<u8>,
    /// `effect`.
    pub effect: Vec<u8>,
    /// `target`.
    pub target: Vec<u8>,
    /// `minimum_effect`.
    pub minimum_effect: Num,
    /// `maximum_effect`.
    pub maximum_effect: Num,
    /// Soft reference to another weapon's name; never validated to exist.
    /// An empty sixth argument means none.
    pub spawn_weapon_name: Option<Vec<u8>>,
    /// Zero-based position among the weapon's results, in source order.
    pub position: usize,
}

/// The mathematical model of a `WeaponResult`.
#[verifier::ext_equal]
pub ghost struct WeaponResultV {
    /// The owning weapon's name.
    pub weapon_name: Seq<u8>,
    /// `condition`.
    pub condition: Seq<u8>,
    /// `effect`.
    pub effect: Seq<u8>,
    /// `target`.
    pub target: Seq<u8>,
    /// `minimum_effect`.
    pub minimum_effect: Seq<u8>,
    /// `maximum_effect`.
    pub maximum_effect: Seq<u8>,
    /// Soft reference to another weapon's name.
    pub spawn_weapon_name: Option<Seq<u8>>,
    /// Zero-based position among the weapon's results.
    pub position: int,
}

impl View for WeaponResult {
    type V = WeaponResultV;

    open spec fn view(&self) -> WeaponResultV {
        WeaponResultV {
            weapon_name: self.weapon_name@,
            condition: self.condition@,
            effect: self.effect@,
            target: self.target@,
            minimum_effect: self.minimum_effect@,
            maximum_effect: self.maximum_effect@,
            spawn_weapon_name: match self.spawn_weapon_name {
                Option::Some(ref s) => Option::Some(s@),
                Option::None => Option::None,
            },
            position: self.position as int,
        }
    }
}

impl WeaponResultV {
    /// Every field holds a value its statement position can carry. A
    /// present spawn reference is nonempty: an empty sixth argument is how
    /// absence is written.
    pub open spec fn wf(self) -> bool {
        &&& true
        &&& is_field_str(self.condition)
        &&& is_field_str(self.effect)
        &&& is_field_str(self.target)
        &&& is_float_lit(self.minimum_effect)
        &&& is_float_lit(self.maximum_effect)
        &&& match self.spawn_weapon_name {
            Option::Some(s) => is_field_str(s) && s.len() > 0,
            Option::None => true,
        }
        &&& 0 <= self.position
    }
}

/// Whether each of the six cleaned tokens parses as its declared type.
pub open spec fn result_toks_ok(toks: Seq<Seq<u8>>) -> bool {
    &&& is_field_str(toks[0])
    &&& is_field_str(toks[1])
    &&& is_field_str(toks[2])
    &&& is_float_lit(toks[3])
    &&& is_float_lit(toks[4])
    &&& is_field_str(toks[5])
}

/// Map the cleaned tokens of one `AddWeaponResult` occurrence, the
/// `pos`-th in its source text.
pub open spec fn map_result(name: Seq<u8>, pos: int, toks: Seq<Seq<u8>>) -> Result<
    WeaponResultV,
    ParseError,
> {
    if toks.len() != 6 {
        Result::Err(ParseError::ArityMismatch)
    } else if result_toks_ok(toks) {
        Result::Ok(
            WeaponResultV {
                weapon_name: name,
                condition: toks[0],
                effect: toks[1],
                target: toks[2],
                minimum_effect: toks[3],
                maximum_effect: toks[4],
                spawn_weapon_name: if toks[5].len() == 0 {
                    Option::None
                } else {
                    Option::Some(toks[5])
                },
                position: pos,
            },
        )
    } else {
        Result::Err(ParseError::FieldTypeError)
    }
}

/// The canonical argument tokens, in statement order. An absent spawn
/// reference renders as an empty quoted string.
pub open spec fn result_tokens(v: WeaponResultV) -> Seq<Seq<u8>> {
    seq![
        quoted(v.condition),
        quoted(v.effect),
        quoted(v.target),
        v.minimum_effect,
        v.maximum_effect,
        quoted(
            match v.spawn_weapon_name {
                Option::Some(s) => s,
                Option::None => Seq::empty(),
            },
        ),
    ]
}

impl WeaponResult {
    /// Map the cleaned tokens of the `pos`-th `AddWeaponResult` occurrence,
    /// for the weapon named `name`.
    pub fn from_tokens(name: &[u8], pos: usize, toks: &Vec<Vec<u8>>) -> (r: Result<
        WeaponResult,
        ParseError,
    >)
        ensures
            match r {
                Result::Ok(w) => map_result(name@, pos as int, toks.deep_view())
                    == Result::<WeaponResultV, ParseError>::Ok(w@),
                Result::Err(e) => map_result(name@, pos as int, toks.deep_view())
                    == Result::<WeaponResultV, ParseError>::Err(e),
            },
    {
        if toks.len() != 6 {
            return Result::Err(ParseError::ArityMismatch);
        }
        proof {
            assert(toks.deep_view()[0] =~= toks@[0]@);
            assert(toks.deep_view()[1] =~= toks@[1]@);
            assert(toks.deep_view()[2] =~= toks@[2]@);
            assert(toks.deep_view()[3] =~= toks@[3]@);
            assert(toks.deep_view()[4] =~= toks@[4]@);
            assert(toks.deep_view()[5] =~= toks@[5]@);
        }
        if !check_field_str(toks[0].as_slice()) {
            return Result::Err(ParseError::FieldTypeError);
        }
        if !check_field_str(toks[1].as_slice()) {
            return Result::Err(ParseError::FieldTypeError);
        }
        if !check_field_str(toks[2].as_slice()) {
            return Result::Err(ParseError::FieldTypeError);
        }
        let minimum_effect = match Num::from_token(copy_vec(&toks[3])) {
            Option::Some(x) => x,
            Option::None => {
                return Result::Err(ParseError::FieldTypeError);
            },
        };
        let maximum_effect = match Num::from_token(copy_vec(&toks[4])) {
            Option::Some(x) => x,
            Option::None => {
                return Result::Err(ParseError::FieldTypeError);
            },
        };
        if !check_field_str(toks[5].as_slice()) {
            return Result::Err(ParseError::FieldTypeError);
        }
        let spawn_weapon_name = if toks[5].len() == 0 {
            Option::None
        } else {
            Option::Some(copy_vec(&toks[5]))
        };
        let w = WeaponResult {
            weapon_name: vstd::slice::slice_to_vec(name),
            condition: copy_vec(&toks[0]),
            effect: copy_vec(&toks[1]),
            target: copy_vec(&toks[2]),
            minimum_effect: minimum_effect,
            maximum_effect: maximum_effect,
            spawn_weapon_name: spawn_weapon_name,
            position: pos,
        };
        proof {
            assert(result_toks_ok(toks.deep_view()));
            assert(map_result(name@, pos as int, toks.deep_view())->Ok_0 =~= w@);
        }
        Result::Ok(w)
    }

    /// The canonical argument tokens of this record.
    pub fn to_tokens(&self) -> (r: Vec<Vec<u8>>)
        ensures
            r.deep_view() == result_tokens(self@),
    {
        let mut r: Vec<Vec<u8>> = Vec::new();
        let mut t0: Vec<u8> = Vec::new();
        crate::ser::push_quoted(&mut t0, self.condition.as_slice());
        r.push(t0);
        let mut t1: Vec<u8> = Vec::new();
        crate::ser::push_quoted(&mut t1, self.effect.as_slice());
        r.push(t1);
        let mut t2: Vec<u8> = Vec::new();
        crate::ser::push_quoted(&mut t2, self.target.as_slice());
        r.push(t2);
        r.push(copy_vec(&self.minimum_effect.lit));
        r.push(copy_vec(&self.maximum_effect.lit));
        let mut t5: Vec<u8> = Vec::new();
        match &self.spawn_weapon_name {
            Option::Some(s) => {
                crate::ser::push_quoted(&mut t5, s.as_slice());
            },
            Option::None => {
                let empty: Vec<u8> = Vec::new();
                crate::ser::push_quoted(&mut t5, empty.as_slice());
            },
        }
        r.push(t5);
        proof {
            assert(r.deep_view().len() == 6);
            assert(r.deep_view()[0] =~= quoted(self.condition@));
            assert(r.deep_view()[1] =~= quoted(self.effect@));
            assert(r.deep_view()[2] =~= quoted(self.target@));
            assert(r.deep_view()[3] =~= self.minimum_effect@);
            assert(r.deep_view()[4] =~= self.maximum_effect@);
            assert(r.deep_view()[5] =~= quoted(
                match self@.spawn_weapon_name {
                    Option::Some(s) => s,
                    Option::None => Seq::empty(),
                },
            ));
            assert(r.deep_view() =~~= result_tokens(self@));
        }
        r
    }
}

/// The canonical tokens of a well-formed record are clean, and mapping them
/// back (cleaned) at the record's own position recovers the record.
pub proof fn lemma_result_round_trip(v: WeaponResultV)
    requires
        v.wf(),
    ensures
        result_tokens(v).len() == 6,
        forall|k: int| 0 <= k < 6 ==> token_clean(#[trigger] result_tokens(v)[k]),
        map_result(
            v.weapon_name,
            v.position,
            result_tokens(v).map_values(|t: Seq<u8>| clean_token(t)),
        ) == Result::<WeaponResultV, ParseError>::Ok(v),
{
    let toks = result_tokens(v);
    let ct = toks.map_values(|t: Seq<u8>| clean_token(t));
    let spawn: Seq<u8> = match v.spawn_weapon_name {
        Option::Some(s) => s,
        Option::None => Seq::empty(),
    };
    crate::ser::lemma_quoted_clean(v.condition);
    crate::ser::lemma_quoted_clean(v.effect);
    crate::ser::lemma_quoted_clean(v.target);
    crate::ser::lemma_lit_clean(v.minimum_effect);
    crate::ser::lemma_lit_clean(v.maximum_effect);
    crate::ser::lemma_quoted_clean(spawn);
    assert(ct[0] == v.condition && ct[1] == v.effect && ct[2] == v.target && ct[3]
        == v.minimum_effect && ct[4] == v.maximum_effect && ct[5] == spawn);
    assert(ct.len() == 6);
    assert(result_toks_ok(ct));
    assert(map_result(v.weapon_name, v.position, ct)->Ok_0 =~= v);
    assert(forall|k: int| 0 <= k < 6 ==> token_clean(#[trigger] toks[k])) by {
        assert(token_clean(toks[0]));
        assert(token_clean(toks[1]));
        assert(token_clean(toks[2]));
        assert(token_clean(toks[3]));
        assert(token_clean(toks[4]));
        assert(token_clean(toks[5]));
    }
}

} // verus!
