//! Verified codec for the `.wepn` weapon-definition notation: a statement
//! grammar (`StartWeaponConfig`, `AddWeaponResult`, `setPenetration`,
//! `setAccuracy`, `setAngles`, `setMiscValues`, `addAnimTurretSound`) is
//! located in raw text, tokenized, mapped to typed records, assembled into a
//! per-weapon aggregate, and rendered back to canonical statement text.

#![verifier::loop_isolation(false)]

use vstd::prelude::*;

pub mod ascii;
pub mod num;
pub mod tokenizer;
pub mod locator;
pub mod names;
pub mod ser;
pub mod placement;
pub mod family;
pub mod weapon;
pub mod weapon_result;
pub mod weapon_penetration;
pub mod weapon_accuracy;
pub mod wepn_file;
pub mod round_trip;
pub mod batch;
pub mod weapon_angles;
pub mod weapon_misc;
pub mod weapon_turret_sound;

verus! {

/// Why a source unit failed to parse. A failure concerns one weapon file
/// only; callers collect these per file instead of aborting a batch.
#[derive(Clone, Copy, Debug, PartialEq, Eq, Structural)]
pub enum ParseError {
    /// A statement that every weapon file must contain was not found.
    MandatoryStatementMissing,
    /// An argument list has unbalanced braces or quotes.
    MalformedArgumentList,
    /// A statement carries fewer or more arguments than its schema.
    ArityMismatch,
    /// An argument does not parse as the type its position requires.
    FieldTypeError,
}

} // verus!
