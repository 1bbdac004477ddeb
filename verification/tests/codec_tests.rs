//! End-to-end tests of the statement codec: parsing, defaults, errors,
//! reconciliation, ordering and round trips.

use wepn_codec::batch::build_batch;
use wepn_codec::wepn_file::WeaponFile;
use wepn_codec::ParseError;

fn full_source() -> Vec<u8> {
    let mut s = Vec::new();
    s.extend_from_slice(
        b"StartWeaponConfig(NewWeaponType,\"Gimble\",\"Bullet\",\"Fire\",\"Normal\",\
500.0,5000.0,0.0,1.5,0.1,1,1,1,1,0.2,0.0,0.0,0,0,90.0,90.0,1.0,\"Normal\",0,0.0,1);\r\n\r\n",
    );
    s.extend_from_slice(
        b"AddWeaponResult(NewWeaponType, \"Hit\", \"DamageHealth\", \"Target_Unit\", 1.0, 2.0, \"\");\r\n\r\n",
    );
    s.extend_from_slice(b"setPenetration(NewWeaponType,1,25.0,{kinetic=10.0});\r\n\r\n");
    s.extend_from_slice(
        b"setAccuracy(NewWeaponType,0.8,{kinetic=0.5},{explosive=0.75, damage=2.0});\r\n\r\n",
    );
    s.extend_from_slice(b"setAngles(NewWeaponType,0.0,-90.0,90.0,-30.0,30.0);\r\n\r\n");
    s.extend_from_slice(b"setMiscValues(NewWeaponType,0.0,0.5);\r\n\r\n");
    s.extend_from_slice(b"addAnimTurretSound(NewWeaponType,\"snd_turret\");");
    s
}

fn contains(haystack: &[u8], needle: &[u8]) -> bool {
    if needle.is_empty() {
        return true;
    }
    haystack.windows(needle.len()).any(|w| w == needle)
}

fn find_pos(haystack: &[u8], needle: &[u8]) -> Option<usize> {
    haystack.windows(needle.len()).position(|w| w == needle)
}

#[test]
fn parses_full_source() {
    let x = WeaponFile::parse(b"gun", &full_source()).unwrap();
    assert_eq!(x.weapon.name, b"gun".to_vec());
    assert_eq!(x.weapon.weapon_type, b"Gimble".to_vec());
    assert_eq!(x.weapon.weapon_fire_type, b"Bullet".to_vec());
    assert_eq!(x.weapon.fire_speed.lit, b"500.0".to_vec());
    assert_eq!(x.weapon.fire_axis, 1);
    assert_eq!(x.weapon.instant_hit_threshold, 1);
    assert_eq!(x.weapon.shield_penetration, b"Normal".to_vec());
    assert_eq!(x.weapon_results.weapon_results.len(), 1);
    let r = &x.weapon_results.weapon_results[0];
    assert_eq!(r.condition, b"Hit".to_vec());
    assert_eq!(r.effect, b"DamageHealth".to_vec());
    assert_eq!(r.target, b"Target_Unit".to_vec());
    assert_eq!(r.minimum_effect.lit, b"1.0".to_vec());
    assert_eq!(r.maximum_effect.lit, b"2.0".to_vec());
    assert!(r.spawn_weapon_name.is_none());
    assert_eq!(r.position, 0);
    assert!(x.weapon_angles.is_some());
    assert!(x.weapon_misc.is_some());
    let snd = x.weapon_turret_sound.as_ref().unwrap();
    assert_eq!(snd.anim_turret_sound, b"snd_turret".to_vec());
}

#[test]
fn start_weapon_config_arity_too_few() {
    // 24 arguments instead of 25: never a partially populated weapon.
    let src = b"StartWeaponConfig(NewWeaponType,\"a\",\"b\",\"c\",\"d\",\
1.0,1.0,1.0,1.0,1.0,1,1,1,1,1.0,1.0,1.0,0,0,1.0,1.0,1.0,\"e\",0,1.0);";
    let r = WeaponFile::parse(b"w", src);
    assert_eq!(r.unwrap_err(), ParseError::ArityMismatch);
}

#[test]
fn start_weapon_config_arity_too_many() {
    let src = b"StartWeaponConfig(NewWeaponType,\"a\",\"b\",\"c\",\"d\",\
1.0,1.0,1.0,1.0,1.0,1,1,1,1,1.0,1.0,1.0,0,0,1.0,1.0,1.0,\"e\",0,1.0,1,9.9);";
    let r = WeaponFile::parse(b"w", src);
    assert_eq!(r.unwrap_err(), ParseError::ArityMismatch);
}

#[test]
fn accuracy_family_list_defaults() {
    // {kinetic=0.5},{explosive=0.75, damage=2.0} yields two records, with
    // the omitted damage defaulting to 1.0.
    let x = WeaponFile::parse(b"gun", &full_source()).unwrap();
    let acc = &x.weapon_accuracy;
    assert_eq!(acc.default_accuracy.lit, b"0.8".to_vec());
    assert_eq!(acc.weapon_accuracies.len(), 2);
    assert_eq!(acc.weapon_accuracies[0].armor_family, b"kinetic".to_vec());
    assert_eq!(acc.weapon_accuracies[0].accuracy.lit, b"0.5".to_vec());
    assert_eq!(acc.weapon_accuracies[0].damage.lit, b"1.0".to_vec());
    assert_eq!(acc.weapon_accuracies[1].armor_family, b"explosive".to_vec());
    assert_eq!(acc.weapon_accuracies[1].accuracy.lit, b"0.75".to_vec());
    assert_eq!(acc.weapon_accuracies[1].damage.lit, b"2.0".to_vec());
}

#[test]
fn penetration_pull_in() {
    // setPenetration(NewWeaponType,1,25.0,{kinetic=10.0}) reconciles onto
    // the weapon record and leaves one per-family entry.
    let mut x = WeaponFile::parse(b"gun", &full_source()).unwrap();
    x.pull_in();
    assert_eq!(x.weapon.field_penetration, 1);
    assert_eq!(x.weapon.default_penetration.lit, b"25.0".to_vec());
    assert_eq!(x.weapon.default_accuracy.lit, b"0.8".to_vec());
    let pen = &x.weapon_penetration;
    assert_eq!(pen.weapon_penetrations.len(), 1);
    assert_eq!(pen.weapon_penetrations[0].armor_family, b"kinetic".to_vec());
    assert_eq!(pen.weapon_penetrations[0].penetration.lit, b"10.0".to_vec());
}

#[test]
fn misc_omitted_is_observable_and_not_rendered() {
    let mut src = full_source();
    // Drop the setMiscValues statement from the source.
    let at = find_pos(&src, b"setMiscValues").unwrap();
    let end = at + find_pos(&src[at..], b";").unwrap() + 1;
    src.drain(at..end);
    let x = WeaponFile::parse(b"gun", &src).unwrap();
    assert!(x.weapon_misc.is_none());
    let out = x.serialize();
    assert!(!contains(&out, b"setMiscValues"));
    // No blank-line artifact: the canonical text never holds three
    // consecutive newlines' worth of blank.
    assert!(!contains(&out, b"\r\n\r\n\r\n"));
}

#[test]
fn result_order_preserved_in_parse() {
    let src = b"StartWeaponConfig(NewWeaponType,\"a\",\"b\",\"c\",\"d\",\
1.0,1.0,1.0,1.0,1.0,1,1,1,1,1.0,1.0,1.0,0,0,1.0,1.0,1.0,\"e\",0,1.0,1);\r\n\
AddWeaponResult(NewWeaponType,\"A\",\"ea\",\"ta\",1.0,1.0,\"\");\r\n\
AddWeaponResult(NewWeaponType,\"B\",\"eb\",\"tb\",1.0,1.0,\"\");\r\n\
AddWeaponResult(NewWeaponType,\"C\",\"ec\",\"tc\",1.0,1.0,\"\");";
    let x = WeaponFile::parse(b"w", src).unwrap();
    let rs = &x.weapon_results.weapon_results;
    assert_eq!(rs.len(), 3);
    assert_eq!(rs[0].condition, b"A".to_vec());
    assert_eq!(rs[1].condition, b"B".to_vec());
    assert_eq!(rs[2].condition, b"C".to_vec());
    assert_eq!(rs[0].position, 0);
    assert_eq!(rs[1].position, 1);
    assert_eq!(rs[2].position, 2);
}

#[test]
fn result_order_recovered_after_store_round_trip() {
    // A store returns multi-valued reads in no particular order; the
    // explicit position attribute recovers source order on assembly.
    let src = b"StartWeaponConfig(NewWeaponType,\"a\",\"b\",\"c\",\"d\",\
1.0,1.0,1.0,1.0,1.0,1,1,1,1,1.0,1.0,1.0,0,0,1.0,1.0,1.0,\"e\",0,1.0,1);\r\n\
AddWeaponResult(NewWeaponType,\"A\",\"ea\",\"ta\",1.0,1.0,\"\");\r\n\
AddWeaponResult(NewWeaponType,\"B\",\"eb\",\"tb\",1.0,1.0,\"\");\r\n\
AddWeaponResult(NewWeaponType,\"C\",\"ec\",\"tc\",1.0,1.0,\"\");";
    let x = WeaponFile::parse(b"w", src).unwrap();
    // Pull the records apart and hand them back shuffled, as a store would.
    let mut results = x.weapon_results.weapon_results;
    let first = results.remove(0);
    results.push(first); // order now B, C, A
    let assembled = WeaponFile::assemble(
        x.weapon,
        results,
        x.weapon_penetration,
        x.weapon_accuracy,
        x.weapon_angles,
        x.weapon_misc,
        x.weapon_turret_sound,
    );
    let rs = &assembled.weapon_results.weapon_results;
    assert_eq!(rs[0].condition, b"A".to_vec());
    assert_eq!(rs[1].condition, b"B".to_vec());
    assert_eq!(rs[2].condition, b"C".to_vec());
    let out = assembled.serialize();
    let pa = find_pos(&out, b"\"A\"").unwrap();
    let pb = find_pos(&out, b"\"B\"").unwrap();
    let pc = find_pos(&out, b"\"C\"").unwrap();
    assert!(pa < pb && pb < pc);
}

#[test]
fn round_trip_token_equivalent() {
    // serialize(push_out(pull_in(parse(T)))) parses back to the same
    // aggregate; a second round trip reproduces the canonical text exactly.
    let mut x = WeaponFile::parse(b"gun", &full_source()).unwrap();
    x.pull_in();
    x.push_out();
    let out1 = x.serialize();
    let mut y = WeaponFile::parse(b"gun", &out1).unwrap();
    y.pull_in();
    assert_eq!(y.weapon.field_penetration, 1);
    assert_eq!(y.weapon.default_penetration.lit, b"25.0".to_vec());
    y.push_out();
    let out2 = y.serialize();
    assert_eq!(out1, out2);
}

#[test]
fn round_trip_without_optional_sections() {
    let src = b"StartWeaponConfig(NewWeaponType,\"a\",\"b\",\"c\",\"d\",\
1.0,1.0,1.0,1.0,1.0,1,1,1,1,1.0,1.0,1.0,0,0,1.0,1.0,1.0,\"e\",0,1.0,1);";
    let mut x = WeaponFile::parse(b"w", src).unwrap();
    x.pull_in();
    x.push_out();
    let out1 = x.serialize();
    let mut y = WeaponFile::parse(b"w", &out1).unwrap();
    assert!(y.weapon_angles.is_none());
    assert!(y.weapon_misc.is_none());
    assert!(y.weapon_turret_sound.is_none());
    assert_eq!(y.weapon_results.weapon_results.len(), 0);
    y.pull_in();
    y.push_out();
    assert_eq!(out1, y.serialize());
}

#[test]
fn batch_is_a_function_of_the_sources() {
    // Importing the same source set twice builds the identical record set.
    let files = vec![
        (b"gun".to_vec(), full_source()),
        (b"bad".to_vec(), b"no weapon here".to_vec()),
    ];
    let files2 = files.clone();
    let (oks1, errs1) = build_batch(&files);
    let (oks2, errs2) = build_batch(&files2);
    assert_eq!(oks1.len(), 1);
    assert_eq!(oks2.len(), 1);
    assert_eq!(oks1[0].serialize(), oks2[0].serialize());
    assert_eq!(errs1.len(), 1);
    assert_eq!(errs1[0].0, b"bad".to_vec());
    assert_eq!(errs1[0].1, ParseError::MandatoryStatementMissing);
    assert_eq!(errs1, errs2);
}

#[test]
fn missing_mandatory_statement() {
    let r = WeaponFile::parse(b"w", b"setMiscValues(NewWeaponType,1.0,2.0);");
    assert_eq!(r.unwrap_err(), ParseError::MandatoryStatementMissing);
}

#[test]
fn unbalanced_brace_is_malformed() {
    let mut src = full_source();
    let at = find_pos(&src, b"{kinetic=10.0}").unwrap();
    src.remove(at + 13); // drop the closing brace of the penetration entry
    let r = WeaponFile::parse(b"gun", &src);
    assert_eq!(r.unwrap_err(), ParseError::MalformedArgumentList);
}

#[test]
fn non_numeric_token_is_field_type_error() {
    let src = b"StartWeaponConfig(NewWeaponType,\"a\",\"b\",\"c\",\"d\",\
fast,1.0,1.0,1.0,1.0,1,1,1,1,1.0,1.0,1.0,0,0,1.0,1.0,1.0,\"e\",0,1.0,1);";
    let r = WeaponFile::parse(b"w", src);
    assert_eq!(r.unwrap_err(), ParseError::FieldTypeError);
}

#[test]
fn integer_overflow_is_field_type_error() {
    let src = b"StartWeaponConfig(NewWeaponType,\"a\",\"b\",\"c\",\"d\",\
1.0,1.0,1.0,1.0,1.0,99999999999,1,1,1,1.0,1.0,1.0,0,0,1.0,1.0,1.0,\"e\",0,1.0,1);";
    let r = WeaponFile::parse(b"w", src);
    assert_eq!(r.unwrap_err(), ParseError::FieldTypeError);
}

#[test]
fn two_decimal_points_is_field_type_error() {
    let src = b"StartWeaponConfig(NewWeaponType,\"a\",\"b\",\"c\",\"d\",\
1.2.3,1.0,1.0,1.0,1.0,1,1,1,1,1.0,1.0,1.0,0,0,1.0,1.0,1.0,\"e\",0,1.0,1);";
    let r = WeaponFile::parse(b"w", src);
    assert_eq!(r.unwrap_err(), ParseError::FieldTypeError);
}

#[test]
fn whitespace_between_arguments_is_tolerated() {
    let compact = b"StartWeaponConfig(NewWeaponType,\"a\",\"b\",\"c\",\"d\",\
1.0,1.0,1.0,1.0,1.0,1,1,1,1,1.0,1.0,1.0,0,0,1.0,1.0,1.0,\"e\",0,1.0,1);";
    let spaced = b"StartWeaponConfig(NewWeaponType ,  \"a\" , \"b\",\r\n  \"c\", \"d\",\r\n\
 1.0, 1.0 ,1.0,1.0,1.0, 1,1,1,1, 1.0,1.0,1.0, 0,0, 1.0,1.0,1.0, \"e\", 0, 1.0, 1 );";
    let x = WeaponFile::parse(b"w", compact).unwrap();
    let y = WeaponFile::parse(b"w", spaced).unwrap();
    assert_eq!(x.serialize(), y.serialize());
}

#[test]
fn negative_angles_round_trip() {
    let x = WeaponFile::parse(b"gun", &full_source()).unwrap();
    let a = x.weapon_angles.as_ref().unwrap();
    assert_eq!(a.min_azimuth.lit, b"-90.0".to_vec());
    assert_eq!(a.min_declination.lit, b"-30.0".to_vec());
    let out = x.serialize();
    assert!(contains(&out, b"setAngles(NewWeaponType,0.0,-90.0,90.0,-30.0,30.0);"));
}

#[test]
fn spawn_weapon_name_present_and_absent() {
    let src = b"StartWeaponConfig(NewWeaponType,\"a\",\"b\",\"c\",\"d\",\
1.0,1.0,1.0,1.0,1.0,1,1,1,1,1.0,1.0,1.0,0,0,1.0,1.0,1.0,\"e\",0,1.0,1);\r\n\
AddWeaponResult(NewWeaponType,\"A\",\"ea\",\"ta\",1.0,1.0,\"Missile\");\r\n\
AddWeaponResult(NewWeaponType,\"B\",\"eb\",\"tb\",1.0,1.0,\"\");";
    let x = WeaponFile::parse(b"w", src).unwrap();
    let rs = &x.weapon_results.weapon_results;
    assert_eq!(rs[0].spawn_weapon_name, Some(b"Missile".to_vec()));
    assert!(rs[1].spawn_weapon_name.is_none());
}

#[test]
fn penetration_value_defaults_to_zero_when_omitted() {
    let mut src = full_source();
    let at = find_pos(&src, b"{kinetic=10.0}").unwrap();
    src.splice(at..at + 14, b"{kinetic=}".iter().copied());
    let x = WeaponFile::parse(b"gun", &src).unwrap();
    let pen = &x.weapon_penetration;
    assert_eq!(pen.weapon_penetrations[0].penetration.lit, b"0.0".to_vec());
}

#[test]
fn damage_pair_in_penetration_is_rejected() {
    let mut src = full_source();
    let at = find_pos(&src, b"{kinetic=10.0}").unwrap();
    src.splice(at..at + 14, b"{kinetic=10.0, damage=2.0}".iter().copied());
    let r = WeaponFile::parse(b"gun", &src);
    assert_eq!(r.unwrap_err(), ParseError::FieldTypeError);
}

#[test]
fn absent_sections_default_their_scalars() {
    let src = b"StartWeaponConfig(NewWeaponType,\"a\",\"b\",\"c\",\"d\",\
1.0,1.0,1.0,1.0,1.0,1,1,1,1,1.0,1.0,1.0,0,0,1.0,1.0,1.0,\"e\",0,1.0,1);";
    let x = WeaponFile::parse(b"w", src).unwrap();
    assert_eq!(x.weapon_penetration.field_penetration, 0);
    assert_eq!(x.weapon_penetration.default_penetration.lit, b"0.0".to_vec());
    assert_eq!(x.weapon_penetration.weapon_penetrations.len(), 0);
    assert_eq!(x.weapon_accuracy.default_accuracy.lit, b"0.0".to_vec());
    assert_eq!(x.weapon_accuracy.weapon_accuracies.len(), 0);
}

#[test]
fn canonical_text_of_minimal_file() {
    let src = b"StartWeaponConfig(NewWeaponType,\"a\",\"b\",\"c\",\"d\",\
1.0,1.0,1.0,1.0,1.0,1,1,1,1,1.0,1.0,1.0,0,0,1.0,1.0,1.0,\"e\",0,1.0,-2);";
    let x = WeaponFile::parse(b"w", src).unwrap();
    let out = x.serialize();
    let expected: &[u8] = b"StartWeaponConfig(NewWeaponType,\"a\",\"b\",\"c\",\"d\",\
1.0,1.0,1.0,1.0,1.0,1,1,1,1,1.0,1.0,1.0,0,0,1.0,1.0,1.0,\"e\",0,1.0,-2);\r\n\r\n\
setPenetration(NewWeaponType,0,0.0);\r\n\r\nsetAccuracy(NewWeaponType,0.0);";
    assert_eq!(out, expected.to_vec());
}

#[test]
fn weapon_scalars_before_reconciliation() {
    // The freshly mapped weapon carries the statement mapper's placeholders
    // until pull-in: low penetration, full accuracy.
    let src = b"StartWeaponConfig(NewWeaponType,\"a\",\"b\",\"c\",\"d\",\
1.0,1.0,1.0,1.0,1.0,1,1,1,1,1.0,1.0,1.0,0,0,1.0,1.0,1.0,\"e\",0,1.0,1);";
    let x = WeaponFile::parse(b"w", src).unwrap();
    assert_eq!(x.weapon.field_penetration, 0);
    assert_eq!(x.weapon.default_penetration.lit, b"0.0".to_vec());
    assert_eq!(x.weapon.default_accuracy.lit, b"1.0".to_vec());
}

#[test]
fn quoted_fields_keep_commas_and_braces() {
    // Commas and braces inside quotes are field content, not structure:
    // the token is not split and maps to one value.
    let src = b"StartWeaponConfig(NewWeaponType,\"a, {b}\",\"b\",\"c\",\"d\",\
1.0,1.0,1.0,1.0,1.0,1,1,1,1,1.0,1.0,1.0,0,0,1.0,1.0,1.0,\"e\",0,1.0,1);\r\n\
AddWeaponResult(NewWeaponType,\"Hit, hard\",\"ea\",\"ta\",1.0,1.0,\"\");";
    let mut x = WeaponFile::parse(b"w", src).unwrap();
    assert_eq!(x.weapon.weapon_type, b"a, {b}".to_vec());
    assert_eq!(
        x.weapon_results.weapon_results[0].condition,
        b"Hit, hard".to_vec()
    );
    x.pull_in();
    x.push_out();
    let out1 = x.serialize();
    let mut y = WeaponFile::parse(b"w", &out1).unwrap();
    assert_eq!(y.weapon.weapon_type, b"a, {b}".to_vec());
    y.pull_in();
    y.push_out();
    assert_eq!(out1, y.serialize());
}
