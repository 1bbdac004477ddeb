//! The core weapon record: the 25 positional fields of
//! `StartWeaponConfig`, plus the three denormalized scalars the reconciler
//! moves between this record and the penetration and accuracy sections.

use vstd::prelude::*;

use crate::ascii::{copy_vec, check_field_str, is_field_str};
use crate::num::{is_float_lit, one_lit, parse_i32_spec, render_i32, zero_lit, Num};
use crate::num::{check_float_lit, num_one, num_zero, parse_i32, render_int,
    lemma_i32_round_trip, lemma_one_lit_wf, lemma_zero_lit_wf};
use crate::ser::quoted;
use crate::tokenizer::{clean_token, token_clean};
use crate::ParseError;

verus! {

/// One weapon: identity, the ballistic fields of its opening statement,
/// and the three scalars owned by the reconciler.
#[derive(Debug)]
pub struct Weapon {
    /// `name`.
    pub name: Vec<u8>,
    /// `weapon_type`.
    pub weapon_type: Vec<u8>,
    /// `weapon_fire_type`.
    pub weapon_fire_type: Vec<u8>,
    /// `weapon_fire_name`.
    pub weapon_fire_name: Vec<u8>,
    /// `activation`.
    pub activation: Vec<u8>,
    /// `fire_speed`.
    pub fire_speed: Num,
    /// `fire_range`.
    pub fire_range: Num,
    /// `fire_radius`.
    pub fire_radius: Num,
    /// `fire_lifetime`.
    pub fire_lifetime: Num,
    /// `fire_anticipation_time`.
    pub fire_anticipation_time: Num,
    /// `fire_axis`.
    pub fire_axis: i32,
    /// `max_effects_spawned`.
    pub max_effects_spawned: i32,
    /// `lead_target`.
    pub lead_target: i32,
    /// `check_line_of_fire`.
    pub check_line_of_fire: i32,
    /// `fire_time`.
    pub fire_time: Num,
    /// `burst_fire_time`.
    pub burst_fire_time: Num,
    /// `burst_wait_time`.
    pub burst_wait_time: Num,
    /// `shoot_at_secondaries`.
    pub shoot_at_secondaries: i32,
    /// `shoot_at_surroundings`.
    pub shoot_at_surroundings: i32,
    /// `max_azimuth_speed`.
    pub max_azimuth_speed: Num,
    /// `max_declination_speed`.
    pub max_declination_speed: Num,
    /// `speed_multiplier`.
    pub speed_multiplier: Num,
    /// `shield_penetration`.
    pub shield_penetration: Vec<u8>,
    /// `track_targets_outside_range`.
    pub track_targets_outside_range: i32,
    /// `wait_for_code_red`.
    pub wait_for_code_red: Num,
    /// `instant_hit_threshold`.
    pub instant_hit_threshold: i32,
    /// `field_penetration`.
    pub field_penetration: i32,
    /// `default_penetration`.
    pub default_penetration: Num,
    /// `default_accuracy`.
    pub default_accuracy: Num,
}

/// The mathematical model of a weapon.
#[verifier::ext_equal]
pub ghost struct WeaponV {
    /// `name`.
    pub name: Seq<u8>,
    /// `weapon_type`.
    pub weapon_type: Seq<u8>,
    /// `weapon_fire_type`.
    pub weapon_fire_type: Seq<u8>,
    /// `weapon_fire_name`.
    pub weapon_fire_name: Seq<u8>,
    /// `activation`.
    pub activation: Seq<u8>,
    /// `fire_speed`.
    pub fire_speed: Seq<u8>,
    /// `fire_range`.
    pub fire_range: Seq<u8>,
    /// `fire_radius`.
    pub fire_radius: Seq<u8>,
    /// `fire_lifetime`.
    pub fire_lifetime: Seq<u8>,
    /// `fire_anticipation_time`.
    pub fire_anticipation_time: Seq<u8>,
    /// `fire_axis`.
    pub fire_axis: int,
    /// `max_effects_spawned`.
    pub max_effects_spawned: int,
    /// `lead_target`.
    pub lead_target: int,
    /// `check_line_of_fire`.
    pub check_line_of_fire: int,
    /// `fire_time`.
    pub fire_time: Seq<u8>,
    /// `burst_fire_time`.
    pub burst_fire_time: Seq<u8>,
    /// `burst_wait_time`.
    pub burst_wait_time: Seq<u8>,
    /// `shoot_at_secondaries`.
    pub shoot_at_secondaries: int,
    /// `shoot_at_surroundings`.
    pub shoot_at_surroundings: int,
    /// `max_azimuth_speed`.
    pub max_azimuth_speed: Seq<u8>,
    /// `max_declination_speed`.
    pub max_declination_speed: Seq<u8>,
    /// `speed_multiplier`.
    pub speed_multiplier: Seq<u8>,
    /// `shield_penetration`.
    pub shield_penetration: Seq<u8>,
    /// `track_targets_outside_range`.
    pub track_targets_outside_range: int,
    /// `wait_for_code_red`.
    pub wait_for_code_red: Seq<u8>,
    /// `instant_hit_threshold`.
    pub instant_hit_threshold: int,
    /// `field_penetration`.
    pub field_penetration: int,
    /// `default_penetration`.
    pub default_penetration: Seq<u8>,
    /// `default_accuracy`.
    pub default_accuracy: Seq<u8>,
}

impl View for Weapon {
    type V = WeaponV;

    open spec fn view(&self) -> WeaponV {
        WeaponV {
            name: self.name@,
            weapon_type: self.weapon_type@,
            weapon_fire_type: self.weapon_fire_type@,
            weapon_fire_name: self.weapon_fire_name@,
            activation: self.activation@,
            fire_speed: self.fire_speed@,
            fire_range: self.fire_range@,
            fire_radius: self.fire_radius@,
            fire_lifetime: self.fire_lifetime@,
            fire_anticipation_time: self.fire_anticipation_time@,
            fire_axis: self.fire_axis as int,
            max_effects_spawned: self.max_effects_spawned as int,
            lead_target: self.lead_target as int,
            check_line_of_fire: self.check_line_of_fire as int,
            fire_time: self.fire_time@,
            burst_fire_time: self.burst_fire_time@,
            burst_wait_time: self.burst_wait_time@,
            shoot_at_secondaries: self.shoot_at_secondaries as int,
            shoot_at_surroundings: self.shoot_at_surroundings as int,
            max_azimuth_speed: self.max_azimuth_speed@,
            max_declination_speed: self.max_declination_speed@,
            speed_multiplier: self.speed_multiplier@,
            shield_penetration: self.shield_penetration@,
            track_targets_outside_range: self.track_targets_outside_range as int,
            wait_for_code_red: self.wait_for_code_red@,
            instant_hit_threshold: self.instant_hit_threshold as int,
            field_penetration: self.field_penetration as int,
            default_penetration: self.default_penetration@,
            default_accuracy: self.default_accuracy@,
        }
    }
}

impl WeaponV {
    /// Every statement field holds a value its position can carry. The
    /// `name` identity comes from the source file and is unconstrained.
    pub open spec fn wf(self) -> bool {
        &&& true
        &&& is_field_str(self.weapon_type)
        &&& is_field_str(self.weapon_fire_type)
        &&& is_field_str(self.weapon_fire_name)
        &&& is_field_str(self.activation)
        &&& is_float_lit(self.fire_speed)
        &&& is_float_lit(self.fire_range)
        &&& is_float_lit(self.fire_radius)
        &&& is_float_lit(self.fire_lifetime)
        &&& is_float_lit(self.fire_anticipation_time)
        &&& -0x8000_0000 <= self.fire_axis <= 0x7fff_ffff
        &&& -0x8000_0000 <= self.max_effects_spawned <= 0x7fff_ffff
        &&& -0x8000_0000 <= self.lead_target <= 0x7fff_ffff
        &&& -0x8000_0000 <= self.check_line_of_fire <= 0x7fff_ffff
        &&& is_float_lit(self.fire_time)
        &&& is_float_lit(self.burst_fire_time)
        &&& is_float_lit(self.burst_wait_time)
        &&& -0x8000_0000 <= self.shoot_at_secondaries <= 0x7fff_ffff
        &&& -0x8000_0000 <= self.shoot_at_surroundings <= 0x7fff_ffff
        &&& is_float_lit(self.max_azimuth_speed)
        &&& is_float_lit(self.max_declination_speed)
        &&& is_float_lit(self.speed_multiplier)
        &&& is_field_str(self.shield_penetration)
        &&& -0x8000_0000 <= self.track_targets_outside_range <= 0x7fff_ffff
        &&& is_float_lit(self.wait_for_code_red)
        &&& -0x8000_0000 <= self.instant_hit_threshold <= 0x7fff_ffff
        &&& -0x8000_0000 <= self.field_penetration <= 0x7fff_ffff
        &&& is_float_lit(self.default_penetration)
        &&& is_float_lit(self.default_accuracy)
    }

    /// The same weapon with the reconciled scalars back at their parse-time
    /// placeholders, as the statement mapper first builds it: penetration
    /// defaults low, accuracy defaults to full.
    pub open spec fn reset_scalars(self) -> WeaponV {
        WeaponV {
            field_penetration: 0,
            default_penetration: zero_lit(),
            default_accuracy: one_lit(),
            ..self
        }
    }
}

/// Whether each of the 25 cleaned tokens parses as the type its position
/// declares.
pub open spec fn weapon_toks_ok(toks: Seq<Seq<u8>>) -> bool {
        &&& is_field_str(toks[0])
        &&& is_field_str(toks[1])
        &&& is_field_str(toks[2])
        &&& is_field_str(toks[3])
        &&& is_float_lit(toks[4])
        &&& is_float_lit(toks[5])
        &&& is_float_lit(toks[6])
        &&& is_float_lit(toks[7])
        &&& is_float_lit(toks[8])
        &&& parse_i32_spec(toks[9]) is Some
        &&& parse_i32_spec(toks[10]) is Some
        &&& parse_i32_spec(toks[11]) is Some
        &&& parse_i32_spec(toks[12]) is Some
        &&& is_float_lit(toks[13])
        &&& is_float_lit(toks[14])
        &&& is_float_lit(toks[15])
        &&& parse_i32_spec(toks[16]) is Some
        &&& parse_i32_spec(toks[17]) is Some
        &&& is_float_lit(toks[18])
        &&& is_float_lit(toks[19])
        &&& is_float_lit(toks[20])
        &&& is_field_str(toks[21])
        &&& parse_i32_spec(toks[22]) is Some
        &&& is_float_lit(toks[23])
        &&& parse_i32_spec(toks[24]) is Some
}

/// Map the cleaned tokens of a `StartWeaponConfig` statement to a weapon.
/// Any other token count is an arity error; a token that does not parse as
/// its position's type is a type error. The reconciled scalars start at
/// their defaults until the reconciler pulls them in.
pub open spec fn map_weapon(name: Seq<u8>, toks: Seq<Seq<u8>>) -> Result<WeaponV, ParseError> {
    if toks.len() != 25 {
        Result::Err(ParseError::ArityMismatch)
    } else if weapon_toks_ok(toks) {
        Result::Ok(WeaponV {
            name: name,
            weapon_type: toks[0],
            weapon_fire_type: toks[1],
            weapon_fire_name: toks[2],
            activation: toks[3],
            fire_speed: toks[4],
            fire_range: toks[5],
            fire_radius: toks[6],
            fire_lifetime: toks[7],
            fire_anticipation_time: toks[8],
            fire_axis: parse_i32_spec(toks[9])->Some_0 as int,
            max_effects_spawned: parse_i32_spec(toks[10])->Some_0 as int,
            lead_target: parse_i32_spec(toks[11])->Some_0 as int,
            check_line_of_fire: parse_i32_spec(toks[12])->Some_0 as int,
            fire_time: toks[13],
            burst_fire_time: toks[14],
            burst_wait_time: toks[15],
            shoot_at_secondaries: parse_i32_spec(toks[16])->Some_0 as int,
            shoot_at_surroundings: parse_i32_spec(toks[17])->Some_0 as int,
            max_azimuth_speed: toks[18],
            max_declination_speed: toks[19],
            speed_multiplier: toks[20],
            shield_penetration: toks[21],
            track_targets_outside_range: parse_i32_spec(toks[22])->Some_0 as int,
            wait_for_code_red: toks[23],
            instant_hit_threshold: parse_i32_spec(toks[24])->Some_0 as int,
            field_penetration: 0,
            default_penetration: zero_lit(),
            default_accuracy: one_lit(),
        })
    } else {
        Result::Err(ParseError::FieldTypeError)
    }
}

/// The canonical argument tokens of a weapon, in statement order.
pub open spec fn weapon_tokens(v: WeaponV) -> Seq<Seq<u8>> {
    seq![
        quoted(v.weapon_type),
        quoted(v.weapon_fire_type),
        quoted(v.weapon_fire_name),
        quoted(v.activation),
        v.fire_speed,
        v.fire_range,
        v.fire_radius,
        v.fire_lifetime,
        v.fire_anticipation_time,
        render_i32(v.fire_axis),
        render_i32(v.max_effects_spawned),
        render_i32(v.lead_target),
        render_i32(v.check_line_of_fire),
        v.fire_time,
        v.burst_fire_time,
        v.burst_wait_time,
        render_i32(v.shoot_at_secondaries),
        render_i32(v.shoot_at_surroundings),
        v.max_azimuth_speed,
        v.max_declination_speed,
        v.speed_multiplier,
        quoted(v.shield_penetration),
        render_i32(v.track_targets_outside_range),
        v.wait_for_code_red,
        render_i32(v.instant_hit_threshold),
    ]
}

impl Weapon {
    /// Map the cleaned tokens of a `StartWeaponConfig` statement, under the
    /// weapon identity `name` (taken from the source file, never from the
    /// statement).
    #[verifier::rlimit(80)]
    pub fn from_tokens(name: &[u8], toks: &Vec<Vec<u8>>) -> (r: Result<Weapon, ParseError>)
        ensures
            match r {
                Result::Ok(w) => map_weapon(name@, toks.deep_view()) == Result::<WeaponV,
                    ParseError>::Ok(w@),
                Result::Err(e) => map_weapon(name@, toks.deep_view()) == Result::<WeaponV,
                    ParseError>::Err(e),
            },
    {
    if toks.len() != 25 {
        return Result::Err(ParseError::ArityMismatch);
    }
    proof {
        assert(toks.deep_view()[0] =~= toks@[0]@);
        assert(toks.deep_view()[1] =~= toks@[1]@);
        assert(toks.deep_view()[2] =~= toks@[2]@);
        assert(toks.deep_view()[3] =~= toks@[3]@);
        assert(toks.deep_view()[4] =~= toks@[4]@);
        assert(toks.deep_view()[5] =~= toks@[5]@);
        assert(toks.deep_view()[6] =~= toks@[6]@);
        assert(toks.deep_view()[7] =~= toks@[7]@);
        assert(toks.deep_view()[8] =~= toks@[8]@);
        assert(toks.deep_view()[9] =~= toks@[9]@);
        assert(toks.deep_view()[10] =~= toks@[10]@);
        assert(toks.deep_view()[11] =~= toks@[11]@);
        assert(toks.deep_view()[12] =~= toks@[12]@);
        assert(toks.deep_view()[13] =~= toks@[13]@);
        assert(toks.deep_view()[14] =~= toks@[14]@);
        assert(toks.deep_view()[15] =~= toks@[15]@);
        assert(toks.deep_view()[16] =~= toks@[16]@);
        assert(toks.deep_view()[17] =~= toks@[17]@);
        assert(toks.deep_view()[18] =~= toks@[18]@);
        assert(toks.deep_view()[19] =~= toks@[19]@);
        assert(toks.deep_view()[20] =~= toks@[20]@);
        assert(toks.deep_view()[21] =~= toks@[21]@);
        assert(toks.deep_view()[22] =~= toks@[22]@);
        assert(toks.deep_view()[23] =~= toks@[23]@);
        assert(toks.deep_view()[24] =~= toks@[24]@);
    }
    if !check_field_str(toks[0].as_slice()) {
        return Result::Err(ParseError::FieldTypeError);
    }
    if !check_field_str(toks[1].as_slice()) {
        return Result::Err(ParseError::FieldTypeError);
    }
    if !check_field_str(toks[2].as_slice()) {
        return Result::Err(ParseError::FieldTypeError);
    }
    if !check_field_str(toks[3].as_slice()) {
        return Result::Err(ParseError::FieldTypeError);
    }
    let fire_speed = match Num::from_token(copy_vec(&toks[4])) {
        Option::Some(n) => n,
        Option::None => {
            return Result::Err(ParseError::FieldTypeError);
        },
    };
    let fire_range = match Num::from_token(copy_vec(&toks[5])) {
        Option::Some(n) => n,
        Option::None => {
            return Result::Err(ParseError::FieldTypeError);
        },
    };
    let fire_radius = match Num::from_token(copy_vec(&toks[6])) {
        Option::Some(n) => n,
        Option::None => {
            return Result::Err(ParseError::FieldTypeError);
        },
    };
    let fire_lifetime = match Num::from_token(copy_vec(&toks[7])) {
        Option::Some(n) => n,
        Option::None => {
            return Result::Err(ParseError::FieldTypeError);
        },
    };
    let fire_anticipation_time = match Num::from_token(copy_vec(&toks[8])) {
        Option::Some(n) => n,
        Option::None => {
            return Result::Err(ParseError::FieldTypeError);
        },
    };
    let fire_axis = match parse_i32(toks[9].as_slice()) {
        Option::Some(n) => n,
        Option::None => {
            return Result::Err(ParseError::FieldTypeError);
        },
    };
    let max_effects_spawned = match parse_i32(toks[10].as_slice()) {
        Option::Some(n) => n,
        Option::None => {
            return Result::Err(ParseError::FieldTypeError);
        },
    };
    let lead_target = match parse_i32(toks[11].as_slice()) {
        Option::Some(n) => n,
        Option::None => {
            return Result::Err(ParseError::FieldTypeError);
        },
    };
    let check_line_of_fire = match parse_i32(toks[12].as_slice()) {
        Option::Some(n) => n,
        Option::None => {
            return Result::Err(ParseError::FieldTypeError);
        },
    };
    let fire_time = match Num::from_token(copy_vec(&toks[13])) {
        Option::Some(n) => n,
        Option::None => {
            return Result::Err(ParseError::FieldTypeError);
        },
    };
    let burst_fire_time = match Num::from_token(copy_vec(&toks[14])) {
        Option::Some(n) => n,
        Option::None => {
            return Result::Err(ParseError::FieldTypeError);
        },
    };
    let burst_wait_time = match Num::from_token(copy_vec(&toks[15])) {
        Option::Some(n) => n,
        Option::None => {
            return Result::Err(ParseError::FieldTypeError);
        },
    };
    let shoot_at_secondaries = match parse_i32(toks[16].as_slice()) {
        Option::Some(n) => n,
        Option::None => {
            return Result::Err(ParseError::FieldTypeError);
        },
    };
    let shoot_at_surroundings = match parse_i32(toks[17].as_slice()) {
        Option::Some(n) => n,
        Option::None => {
            return Result::Err(ParseError::FieldTypeError);
        },
    };
    let max_azimuth_speed = match Num::from_token(copy_vec(&toks[18])) {
        Option::Some(n) => n,
        Option::None => {
            return Result::Err(ParseError::FieldTypeError);
        },
    };
    let max_declination_speed = match Num::from_token(copy_vec(&toks[19])) {
        Option::Some(n) => n,
        Option::None => {
            return Result::Err(ParseError::FieldTypeError);
        },
    };
    let speed_multiplier = match Num::from_token(copy_vec(&toks[20])) {
        Option::Some(n) => n,
        Option::None => {
            return Result::Err(ParseError::FieldTypeError);
        },
    };
    if !check_field_str(toks[21].as_slice()) {
        return Result::Err(ParseError::FieldTypeError);
    }
    let track_targets_outside_range = match parse_i32(toks[22].as_slice()) {
        Option::Some(n) => n,
        Option::None => {
            return Result::Err(ParseError::FieldTypeError);
        },
    };
    let wait_for_code_red = match Num::from_token(copy_vec(&toks[23])) {
        Option::Some(n) => n,
        Option::None => {
            return Result::Err(ParseError::FieldTypeError);
        },
    };
    let instant_hit_threshold = match parse_i32(toks[24].as_slice()) {
        Option::Some(n) => n,
        Option::None => {
            return Result::Err(ParseError::FieldTypeError);
        },
    };
    let w = Weapon {
        name: vstd::slice::slice_to_vec(name),
        weapon_type: copy_vec(&toks[0]),
        weapon_fire_type: copy_vec(&toks[1]),
        weapon_fire_name: copy_vec(&toks[2]),
        activation: copy_vec(&toks[3]),
        fire_speed: fire_speed,
        fire_range: fire_range,
        fire_radius: fire_radius,
        fire_lifetime: fire_lifetime,
        fire_anticipation_time: fire_anticipation_time,
        fire_axis: fire_axis,
        max_effects_spawned: max_effects_spawned,
        lead_target: lead_target,
        check_line_of_fire: check_line_of_fire,
        fire_time: fire_time,
        burst_fire_time: burst_fire_time,
        burst_wait_time: burst_wait_time,
        shoot_at_secondaries: shoot_at_secondaries,
        shoot_at_surroundings: shoot_at_surroundings,
        max_azimuth_speed: max_azimuth_speed,
        max_declination_speed: max_declination_speed,
        speed_multiplier: speed_multiplier,
        shield_penetration: copy_vec(&toks[21]),
        track_targets_outside_range: track_targets_outside_range,
        wait_for_code_red: wait_for_code_red,
        instant_hit_threshold: instant_hit_threshold,
        field_penetration: 0,
        default_penetration: num_zero(),
        default_accuracy: num_one(),
    };
    proof {
        lemma_zero_lit_wf();
        lemma_one_lit_wf();
        assert(weapon_toks_ok(toks.deep_view()));
        assert(map_weapon(name@, toks.deep_view())->Ok_0 =~= w@);
    }
    Result::Ok(w)
    }

    /// The canonical argument tokens of this weapon.
    #[verifier::rlimit(80)]
    pub fn to_tokens(&self) -> (r: Vec<Vec<u8>>)
        ensures
            r.deep_view() == weapon_tokens(self@),
    {
        let mut r: Vec<Vec<u8>> = Vec::new();
        let mut t0: Vec<u8> = Vec::new();
        crate::ser::push_quoted(&mut t0, self.weapon_type.as_slice());
        r.push(t0);
        let mut t1: Vec<u8> = Vec::new();
        crate::ser::push_quoted(&mut t1, self.weapon_fire_type.as_slice());
        r.push(t1);
        let mut t2: Vec<u8> = Vec::new();
        crate::ser::push_quoted(&mut t2, self.weapon_fire_name.as_slice());
        r.push(t2);
        let mut t3: Vec<u8> = Vec::new();
        crate::ser::push_quoted(&mut t3, self.activation.as_slice());
        r.push(t3);
        r.push(copy_vec(&self.fire_speed.lit));
        r.push(copy_vec(&self.fire_range.lit));
        r.push(copy_vec(&self.fire_radius.lit));
        r.push(copy_vec(&self.fire_lifetime.lit));
        r.push(copy_vec(&self.fire_anticipation_time.lit));
        r.push(render_int(self.fire_axis));
        r.push(render_int(self.max_effects_spawned));
        r.push(render_int(self.lead_target));
        r.push(render_int(self.check_line_of_fire));
        r.push(copy_vec(&self.fire_time.lit));
        r.push(copy_vec(&self.burst_fire_time.lit));
        r.push(copy_vec(&self.burst_wait_time.lit));
        r.push(render_int(self.shoot_at_secondaries));
        r.push(render_int(self.shoot_at_surroundings));
        r.push(copy_vec(&self.max_azimuth_speed.lit));
        r.push(copy_vec(&self.max_declination_speed.lit));
        r.push(copy_vec(&self.speed_multiplier.lit));
        let mut t21: Vec<u8> = Vec::new();
        crate::ser::push_quoted(&mut t21, self.shield_penetration.as_slice());
        r.push(t21);
        r.push(render_int(self.track_targets_outside_range));
        r.push(copy_vec(&self.wait_for_code_red.lit));
        r.push(render_int(self.instant_hit_threshold));
        proof {
            assert(r.deep_view().len() == 25);
            assert(r.deep_view()[0] =~= quoted(self.weapon_type@));
            assert(r.deep_view()[1] =~= quoted(self.weapon_fire_type@));
            assert(r.deep_view()[2] =~= quoted(self.weapon_fire_name@));
            assert(r.deep_view()[3] =~= quoted(self.activation@));
            assert(r.deep_view()[4] =~= self.fire_speed@);
            assert(r.deep_view()[5] =~= self.fire_range@);
            assert(r.deep_view()[6] =~= self.fire_radius@);
            assert(r.deep_view()[7] =~= self.fire_lifetime@);
            assert(r.deep_view()[8] =~= self.fire_anticipation_time@);
            assert(r.deep_view()[9] =~= render_i32(self.fire_axis as int));
            assert(r.deep_view()[10] =~= render_i32(self.max_effects_spawned as int));
            assert(r.deep_view()[11] =~= render_i32(self.lead_target as int));
            assert(r.deep_view()[12] =~= render_i32(self.check_line_of_fire as int));
            assert(r.deep_view()[13] =~= self.fire_time@);
            assert(r.deep_view()[14] =~= self.burst_fire_time@);
            assert(r.deep_view()[15] =~= self.burst_wait_time@);
            assert(r.deep_view()[16] =~= render_i32(self.shoot_at_secondaries as int));
            assert(r.deep_view()[17] =~= render_i32(self.shoot_at_surroundings as int));
            assert(r.deep_view()[18] =~= self.max_azimuth_speed@);
            assert(r.deep_view()[19] =~= self.max_declination_speed@);
            assert(r.deep_view()[20] =~= self.speed_multiplier@);
            assert(r.deep_view()[21] =~= quoted(self.shield_penetration@));
            assert(r.deep_view()[22] =~= render_i32(self.track_targets_outside_range as int));
            assert(r.deep_view()[23] =~= self.wait_for_code_red@);
            assert(r.deep_view()[24] =~= render_i32(self.instant_hit_threshold as int));
            assert(r.deep_view() =~~= weapon_tokens(self@));
        }
        r
    }
}

/// An argument list of any count other than 25 maps to `ArityMismatch` and
/// nothing else: the mapper never yields a partially populated weapon.
pub proof fn lemma_weapon_arity(name: Seq<u8>, toks: Seq<Seq<u8>>)
    requires
        toks.len() != 25,
    ensures
        map_weapon(name, toks) == Result::<WeaponV, ParseError>::Err(ParseError::ArityMismatch),
{
}

/// The canonical tokens of a well-formed weapon are clean, and mapping them
/// back (cleaned, as the tokenizer hands them over) recovers the weapon with
/// its reconciled scalars at their defaults.
pub proof fn lemma_weapon_round_trip(v: WeaponV)
    requires
        v.wf(),
    ensures
        weapon_tokens(v).len() == 25,
        forall|k: int| 0 <= k < 25 ==> token_clean(#[trigger] weapon_tokens(v)[k]),
        map_weapon(v.name, weapon_tokens(v).map_values(|t: Seq<u8>| clean_token(t)))
            == Result::<WeaponV, ParseError>::Ok(v.reset_scalars()),
{
    let toks = weapon_tokens(v);
    let ct = toks.map_values(|t: Seq<u8>| clean_token(t));
    lemma_zero_lit_wf();
    lemma_one_lit_wf();
    crate::ser::lemma_quoted_clean(v.weapon_type);
    assert(ct[0] == v.weapon_type);
    crate::ser::lemma_quoted_clean(v.weapon_fire_type);
    assert(ct[1] == v.weapon_fire_type);
    crate::ser::lemma_quoted_clean(v.weapon_fire_name);
    assert(ct[2] == v.weapon_fire_name);
    crate::ser::lemma_quoted_clean(v.activation);
    assert(ct[3] == v.activation);
    crate::ser::lemma_lit_clean(v.fire_speed);
    assert(ct[4] == v.fire_speed);
    crate::ser::lemma_lit_clean(v.fire_range);
    assert(ct[5] == v.fire_range);
    crate::ser::lemma_lit_clean(v.fire_radius);
    assert(ct[6] == v.fire_radius);
    crate::ser::lemma_lit_clean(v.fire_lifetime);
    assert(ct[7] == v.fire_lifetime);
    crate::ser::lemma_lit_clean(v.fire_anticipation_time);
    assert(ct[8] == v.fire_anticipation_time);
    crate::ser::lemma_int_clean(v.fire_axis);
    lemma_i32_round_trip(v.fire_axis as i32);
    assert(ct[9] == render_i32(v.fire_axis));
    crate::ser::lemma_int_clean(v.max_effects_spawned);
    lemma_i32_round_trip(v.max_effects_spawned as i32);
    assert(ct[10] == render_i32(v.max_effects_spawned));
    crate::ser::lemma_int_clean(v.lead_target);
    lemma_i32_round_trip(v.lead_target as i32);
    assert(ct[11] == render_i32(v.lead_target));
    crate::ser::lemma_int_clean(v.check_line_of_fire);
    lemma_i32_round_trip(v.check_line_of_fire as i32);
    assert(ct[12] == render_i32(v.check_line_of_fire));
    crate::ser::lemma_lit_clean(v.fire_time);
    assert(ct[13] == v.fire_time);
    crate::ser::lemma_lit_clean(v.burst_fire_time);
    assert(ct[14] == v.burst_fire_time);
    crate::ser::lemma_lit_clean(v.burst_wait_time);
    assert(ct[15] == v.burst_wait_time);
    crate::ser::lemma_int_clean(v.shoot_at_secondaries);
    lemma_i32_round_trip(v.shoot_at_secondaries as i32);
    assert(ct[16] == render_i32(v.shoot_at_secondaries));
    crate::ser::lemma_int_clean(v.shoot_at_surroundings);
    lemma_i32_round_trip(v.shoot_at_surroundings as i32);
    assert(ct[17] == render_i32(v.shoot_at_surroundings));
    crate::ser::lemma_lit_clean(v.max_azimuth_speed);
    assert(ct[18] == v.max_azimuth_speed);
    crate::ser::lemma_lit_clean(v.max_declination_speed);
    assert(ct[19] == v.max_declination_speed);
    crate::ser::lemma_lit_clean(v.speed_multiplier);
    assert(ct[20] == v.speed_multiplier);
    crate::ser::lemma_quoted_clean(v.shield_penetration);
    assert(ct[21] == v.shield_penetration);
    crate::ser::lemma_int_clean(v.track_targets_outside_range);
    lemma_i32_round_trip(v.track_targets_outside_range as i32);
    assert(ct[22] == render_i32(v.track_targets_outside_range));
    crate::ser::lemma_lit_clean(v.wait_for_code_red);
    assert(ct[23] == v.wait_for_code_red);
    crate::ser::lemma_int_clean(v.instant_hit_threshold);
    lemma_i32_round_trip(v.instant_hit_threshold as i32);
    assert(ct[24] == render_i32(v.instant_hit_threshold));
    assert(ct.len() == 25);
    assert(weapon_toks_ok(ct));
    assert(map_weapon(v.name, ct)->Ok_0 =~= v.reset_scalars());
    assert(forall|k: int| 0 <= k < 25 ==> token_clean(#[trigger] toks[k])) by {
        assert(token_clean(toks[0]));
        assert(token_clean(toks[1]));
        assert(token_clean(toks[2]));
        assert(token_clean(toks[3]));
        assert(token_clean(toks[4]));
        assert(token_clean(toks[5]));
        assert(token_clean(toks[6]));
        assert(token_clean(toks[7]));
        assert(token_clean(toks[8]));
        assert(token_clean(toks[9]));
        assert(token_clean(toks[10]));
        assert(token_clean(toks[11]));
        assert(token_clean(toks[12]));
        assert(token_clean(toks[13]));
        assert(token_clean(toks[14]));
        assert(token_clean(toks[15]));
        assert(token_clean(toks[16]));
        assert(token_clean(toks[17]));
        assert(token_clean(toks[18]));
        assert(token_clean(toks[19]));
        assert(token_clean(toks[20]));
        assert(token_clean(toks[21]));
        assert(token_clean(toks[22]));
        assert(token_clean(toks[23]));
        assert(token_clean(toks[24]));
    }
}

} // verus!