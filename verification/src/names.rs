//! The seven statement names of the grammar, and the facts the locator
//! proofs need of them: every name is a nonempty run of letters, and no name
//! is a suffix of another. The latter is what lets the serializer prove that
//! one statement's text never contains an occurrence of another statement.

use vstd::prelude::*;

verus! {

/// An ASCII letter.
pub open spec fn is_letter(c: u8) -> bool {
    (65 <= c <= 90) || (97 <= c <= 122)
}

/// A usable statement name: nonempty, letters only.
pub open spec fn name_wf(n: Seq<u8>) -> bool {
    n.len() > 0 && forall|i: int| 0 <= i < n.len() ==> is_letter(#[trigger] n[i])
}

/// `m` ends `n`.
pub open spec fn is_suffix_of(m: Seq<u8>, n: Seq<u8>) -> bool {
    m.len() <= n.len() && n.subrange(n.len() - m.len(), n.len() as int) == m
}

/// `StartWeaponConfig`.
pub open spec fn start_name() -> Seq<u8> {
    seq![83u8, 116u8, 97u8, 114u8, 116u8, 87u8, 101u8, 97u8, 112u8, 111u8, 110u8, 67u8, 111u8, 110u8, 102u8, 105u8, 103u8]
}

/// `StartWeaponConfig` as bytes.
pub fn start_name_bytes() -> (r: Vec<u8>)
    ensures
        r@ == start_name(),
{
    let mut v: Vec<u8> = Vec::new();
    v.push(83);
    v.push(116);
    v.push(97);
    v.push(114);
    v.push(116);
    v.push(87);
    v.push(101);
    v.push(97);
    v.push(112);
    v.push(111);
    v.push(110);
    v.push(67);
    v.push(111);
    v.push(110);
    v.push(102);
    v.push(105);
    v.push(103);
    proof {
        assert(v@ =~= start_name());
    }
    v
}

/// `AddWeaponResult`.
pub open spec fn result_name() -> Seq<u8> {
    seq![65u8, 100u8, 100u8, 87u8, 101u8, 97u8, 112u8, 111u8, 110u8, 82u8, 101u8, 115u8, 117u8, 108u8, 116u8]
}

/// `AddWeaponResult` as bytes.
pub fn result_name_bytes() -> (r: Vec<u8>)
    ensures
        r@ == result_name(),
{
    let mut v: Vec<u8> = Vec::new();
    v.push(65);
    v.push(100);
    v.push(100);
    v.push(87);
    v.push(101);
    v.push(97);
    v.push(112);
    v.push(111);
    v.push(110);
    v.push(82);
    v.push(101);
    v.push(115);
    v.push(117);
    v.push(108);
    v.push(116);
    proof {
        assert(v@ =~= result_name());
    }
    v
}

/// `setPenetration`.
pub open spec fn pen_name() -> Seq<u8> {
    seq![115u8, 101u8, 116u8, 80u8, 101u8, 110u8, 101u8, 116u8, 114u8, 97u8, 116u8, 105u8, 111u8, 110u8]
}

/// `setPenetration` as bytes.
pub fn pen_name_bytes() -> (r: Vec<u8>)
    ensures
        r@ == pen_name(),
{
    let mut v: Vec<u8> = Vec::new();
    v.push(115);
    v.push(101);
    v.push(116);
    v.push(80);
    v.push(101);
    v.push(110);
    v.push(101);
    v.push(116);
    v.push(114);
    v.push(97);
    v.push(116);
    v.push(105);
    v.push(111);
    v.push(110);
    proof {
        assert(v@ =~= pen_name());
    }
    v
}

/// `setAccuracy`.
pub open spec fn acc_name() -> Seq<u8> {
    seq![115u8, 101u8, 116u8, 65u8, 99u8, 99u8, 117u8, 114u8, 97u8, 99u8, 121u8]
}

/// `setAccuracy` as bytes.
pub fn acc_name_bytes() -> (r: Vec<u8>)
    ensures
        r@ == acc_name(),
{
    let mut v: Vec<u8> = Vec::new();
    v.push(115);
    v.push(101);
    v.push(116);
    v.push(65);
    v.push(99);
    v.push(99);
    v.push(117);
    v.push(114);
    v.push(97);
    v.push(99);
    v.push(121);
    proof {
        assert(v@ =~= acc_name());
    }
    v
}

/// `setAngles`.
pub open spec fn angles_name() -> Seq<u8> {
    seq![115u8, 101u8, 116u8, 65u8, 110u8, 103u8, 108u8, 101u8, 115u8]
}

/// `setAngles` as bytes.
pub fn angles_name_bytes() -> (r: Vec<u8>)
    ensures
        r@ == angles_name(),
{
    let mut v: Vec<u8> = Vec::new();
    v.push(115);
    v.push(101);
    v.push(116);
    v.push(65);
    v.push(110);
    v.push(103);
    v.push(108);
    v.push(101);
    v.push(115);
    proof {
        assert(v@ =~= angles_name());
    }
    v
}

/// `setMiscValues`.
pub open spec fn misc_name() -> Seq<u8> {
    seq![115u8, 101u8, 116u8, 77u8, 105u8, 115u8, 99u8, 86u8, 97u8, 108u8, 117u8, 101u8, 115u8]
}

/// `setMiscValues` as bytes.
pub fn misc_name_bytes() -> (r: Vec<u8>)
    ensures
        r@ == misc_name(),
{
    let mut v: Vec<u8> = Vec::new();
    v.push(115);
    v.push(101);
    v.push(116);
    v.push(77);
    v.push(105);
    v.push(115);
    v.push(99);
    v.push(86);
    v.push(97);
    v.push(108);
    v.push(117);
    v.push(101);
    v.push(115);
    proof {
        assert(v@ =~= misc_name());
    }
    v
}

/// `addAnimTurretSound`.
pub open spec fn sound_name() -> Seq<u8> {
    seq![97u8, 100u8, 100u8, 65u8, 110u8, 105u8, 109u8, 84u8, 117u8, 114u8, 114u8, 101u8, 116u8, 83u8, 111u8, 117u8, 110u8, 100u8]
}

/// `addAnimTurretSound` as bytes.
pub fn sound_name_bytes() -> (r: Vec<u8>)
    ensures
        r@ == sound_name(),
{
    let mut v: Vec<u8> = Vec::new();
    v.push(97);
    v.push(100);
    v.push(100);
    v.push(65);
    v.push(110);
    v.push(105);
    v.push(109);
    v.push(84);
    v.push(117);
    v.push(114);
    v.push(114);
    v.push(101);
    v.push(116);
    v.push(83);
    v.push(111);
    v.push(117);
    v.push(110);
    v.push(100);
    proof {
        assert(v@ =~= sound_name());
    }
    v
}

/// `damage`: the optional second key of an accuracy family entry.
pub open spec fn damage_kw() -> Seq<u8> {
    seq![100u8, 97u8, 109u8, 97u8, 103u8, 101u8]
}

/// `damage` as bytes.
pub fn damage_kw_bytes() -> (r: Vec<u8>)
    ensures
        r@ == damage_kw(),
{
    let mut v: Vec<u8> = Vec::new();
    v.push(100);
    v.push(97);
    v.push(109);
    v.push(97);
    v.push(103);
    v.push(101);
    proof {
        assert(v@ =~= damage_kw());
    }
    v
}

/// Every statement name is a nonempty run of letters.
pub proof fn lemma_names_wf()
    ensures
        name_wf(start_name()),
        name_wf(result_name()),
        name_wf(pen_name()),
        name_wf(acc_name()),
        name_wf(angles_name()),
        name_wf(misc_name()),
        name_wf(sound_name()),
{
    assert(name_wf(start_name())) by {
        assert(start_name()[0] == 83 && start_name()[1] == 116 && start_name()[2] == 97 && start_name()[3] == 114 && start_name()[4] == 116 && start_name()[5] == 87 && start_name()[6] == 101 && start_name()[7] == 97 && start_name()[8] == 112 && start_name()[9] == 111 && start_name()[10] == 110 && start_name()[11] == 67 && start_name()[12] == 111 && start_name()[13] == 110 && start_name()[14] == 102 && start_name()[15] == 105 && start_name()[16] == 103);
        assert(forall|i: int| 0 <= i < 17 ==> is_letter(#[trigger] start_name()[i])) by {
            assert(start_name()[0] == 83 && start_name()[1] == 116 && start_name()[2] == 97 && start_name()[3] == 114 && start_name()[4] == 116 && start_name()[5] == 87 && start_name()[6] == 101 && start_name()[7] == 97 && start_name()[8] == 112 && start_name()[9] == 111 && start_name()[10] == 110 && start_name()[11] == 67 && start_name()[12] == 111 && start_name()[13] == 110 && start_name()[14] == 102 && start_name()[15] == 105 && start_name()[16] == 103);
        }
    }
    assert(name_wf(result_name())) by {
        assert(result_name()[0] == 65 && result_name()[1] == 100 && result_name()[2] == 100 && result_name()[3] == 87 && result_name()[4] == 101 && result_name()[5] == 97 && result_name()[6] == 112 && result_name()[7] == 111 && result_name()[8] == 110 && result_name()[9] == 82 && result_name()[10] == 101 && result_name()[11] == 115 && result_name()[12] == 117 && result_name()[13] == 108 && result_name()[14] == 116);
        assert(forall|i: int| 0 <= i < 15 ==> is_letter(#[trigger] result_name()[i])) by {
            assert(result_name()[0] == 65 && result_name()[1] == 100 && result_name()[2] == 100 && result_name()[3] == 87 && result_name()[4] == 101 && result_name()[5] == 97 && result_name()[6] == 112 && result_name()[7] == 111 && result_name()[8] == 110 && result_name()[9] == 82 && result_name()[10] == 101 && result_name()[11] == 115 && result_name()[12] == 117 && result_name()[13] == 108 && result_name()[14] == 116);
        }
    }
    assert(name_wf(pen_name())) by {
        assert(pen_name()[0] == 115 && pen_name()[1] == 101 && pen_name()[2] == 116 && pen_name()[3] == 80 && pen_name()[4] == 101 && pen_name()[5] == 110 && pen_name()[6] == 101 && pen_name()[7] == 116 && pen_name()[8] == 114 && pen_name()[9] == 97 && pen_name()[10] == 116 && pen_name()[11] == 105 && pen_name()[12] == 111 && pen_name()[13] == 110);
        assert(forall|i: int| 0 <= i < 14 ==> is_letter(#[trigger] pen_name()[i])) by {
            assert(pen_name()[0] == 115 && pen_name()[1] == 101 && pen_name()[2] == 116 && pen_name()[3] == 80 && pen_name()[4] == 101 && pen_name()[5] == 110 && pen_name()[6] == 101 && pen_name()[7] == 116 && pen_name()[8] == 114 && pen_name()[9] == 97 && pen_name()[10] == 116 && pen_name()[11] == 105 && pen_name()[12] == 111 && pen_name()[13] == 110);
        }
    }
    assert(name_wf(acc_name())) by {
        assert(acc_name()[0] == 115 && acc_name()[1] == 101 && acc_name()[2] == 116 && acc_name()[3] == 65 && acc_name()[4] == 99 && acc_name()[5] == 99 && acc_name()[6] == 117 && acc_name()[7] == 114 && acc_name()[8] == 97 && acc_name()[9] == 99 && acc_name()[10] == 121);
        assert(forall|i: int| 0 <= i < 11 ==> is_letter(#[trigger] acc_name()[i])) by {
            assert(acc_name()[0] == 115 && acc_name()[1] == 101 && acc_name()[2] == 116 && acc_name()[3] == 65 && acc_name()[4] == 99 && acc_name()[5] == 99 && acc_name()[6] == 117 && acc_name()[7] == 114 && acc_name()[8] == 97 && acc_name()[9] == 99 && acc_name()[10] == 121);
        }
    }
    assert(name_wf(angles_name())) by {
        assert(angles_name()[0] == 115 && angles_name()[1] == 101 && angles_name()[2] == 116 && angles_name()[3] == 65 && angles_name()[4] == 110 && angles_name()[5] == 103 && angles_name()[6] == 108 && angles_name()[7] == 101 && angles_name()[8] == 115);
        assert(forall|i: int| 0 <= i < 9 ==> is_letter(#[trigger] angles_name()[i])) by {
            assert(angles_name()[0] == 115 && angles_name()[1] == 101 && angles_name()[2] == 116 && angles_name()[3] == 65 && angles_name()[4] == 110 && angles_name()[5] == 103 && angles_name()[6] == 108 && angles_name()[7] == 101 && angles_name()[8] == 115);
        }
    }
    assert(name_wf(misc_name())) by {
        assert(misc_name()[0] == 115 && misc_name()[1] == 101 && misc_name()[2] == 116 && misc_name()[3] == 77 && misc_name()[4] == 105 && misc_name()[5] == 115 && misc_name()[6] == 99 && misc_name()[7] == 86 && misc_name()[8] == 97 && misc_name()[9] == 108 && misc_name()[10] == 117 && misc_name()[11] == 101 && misc_name()[12] == 115);
        assert(forall|i: int| 0 <= i < 13 ==> is_letter(#[trigger] misc_name()[i])) by {
            assert(misc_name()[0] == 115 && misc_name()[1] == 101 && misc_name()[2] == 116 && misc_name()[3] == 77 && misc_name()[4] == 105 && misc_name()[5] == 115 && misc_name()[6] == 99 && misc_name()[7] == 86 && misc_name()[8] == 97 && misc_name()[9] == 108 && misc_name()[10] == 117 && misc_name()[11] == 101 && misc_name()[12] == 115);
        }
    }
    assert(name_wf(sound_name())) by {
        assert(sound_name()[0] == 97 && sound_name()[1] == 100 && sound_name()[2] == 100 && sound_name()[3] == 65 && sound_name()[4] == 110 && sound_name()[5] == 105 && sound_name()[6] == 109 && sound_name()[7] == 84 && sound_name()[8] == 117 && sound_name()[9] == 114 && sound_name()[10] == 114 && sound_name()[11] == 101 && sound_name()[12] == 116 && sound_name()[13] == 83 && sound_name()[14] == 111 && sound_name()[15] == 117 && sound_name()[16] == 110 && sound_name()[17] == 100);
        assert(forall|i: int| 0 <= i < 18 ==> is_letter(#[trigger] sound_name()[i])) by {
            assert(sound_name()[0] == 97 && sound_name()[1] == 100 && sound_name()[2] == 100 && sound_name()[3] == 65 && sound_name()[4] == 110 && sound_name()[5] == 105 && sound_name()[6] == 109 && sound_name()[7] == 84 && sound_name()[8] == 117 && sound_name()[9] == 114 && sound_name()[10] == 114 && sound_name()[11] == 101 && sound_name()[12] == 116 && sound_name()[13] == 83 && sound_name()[14] == 111 && sound_name()[15] == 117 && sound_name()[16] == 110 && sound_name()[17] == 100);
        }
    }
}

/// A differing byte refutes a suffix claim.
proof fn lemma_not_suffix_at(m: Seq<u8>, n: Seq<u8>, k: int)
    requires
        0 <= k < m.len(),
        m.len() <= n.len() ==> m[k] != n[n.len() - m.len() + k],
    ensures
        !is_suffix_of(m, n),
{
    if m.len() <= n.len() {
        assert(n.subrange(n.len() - m.len(), n.len() as int)[k] == n[n.len() - m.len() + k]);
    }
}

/// No statement name ends another: an occurrence of one name immediately
/// before a `(` can never be the tail of a different statement's name.
pub proof fn lemma_names_no_suffix()
    ensures
        !is_suffix_of(start_name(), result_name()),
        !is_suffix_of(start_name(), pen_name()),
        !is_suffix_of(start_name(), acc_name()),
        !is_suffix_of(start_name(), angles_name()),
        !is_suffix_of(start_name(), misc_name()),
        !is_suffix_of(start_name(), sound_name()),
        !is_suffix_of(result_name(), start_name()),
        !is_suffix_of(result_name(), pen_name()),
        !is_suffix_of(result_name(), acc_name()),
        !is_suffix_of(result_name(), angles_name()),
        !is_suffix_of(result_name(), misc_name()),
        !is_suffix_of(result_name(), sound_name()),
        !is_suffix_of(pen_name(), start_name()),
        !is_suffix_of(pen_name(), result_name()),
        !is_suffix_of(pen_name(), acc_name()),
        !is_suffix_of(pen_name(), angles_name()),
        !is_suffix_of(pen_name(), misc_name()),
        !is_suffix_of(pen_name(), sound_name()),
        !is_suffix_of(acc_name(), start_name()),
        !is_suffix_of(acc_name(), result_name()),
        !is_suffix_of(acc_name(), pen_name()),
        !is_suffix_of(acc_name(), angles_name()),
        !is_suffix_of(acc_name(), misc_name()),
        !is_suffix_of(acc_name(), sound_name()),
        !is_suffix_of(angles_name(), start_name()),
        !is_suffix_of(angles_name(), result_name()),
        !is_suffix_of(angles_name(), pen_name()),
        !is_suffix_of(angles_name(), acc_name()),
        !is_suffix_of(angles_name(), misc_name()),
        !is_suffix_of(angles_name(), sound_name()),
        !is_suffix_of(misc_name(), start_name()),
        !is_suffix_of(misc_name(), result_name()),
        !is_suffix_of(misc_name(), pen_name()),
        !is_suffix_of(misc_name(), acc_name()),
        !is_suffix_of(misc_name(), angles_name()),
        !is_suffix_of(misc_name(), sound_name()),
        !is_suffix_of(sound_name(), start_name()),
        !is_suffix_of(sound_name(), result_name()),
        !is_suffix_of(sound_name(), pen_name()),
        !is_suffix_of(sound_name(), acc_name()),
        !is_suffix_of(sound_name(), angles_name()),
        !is_suffix_of(sound_name(), misc_name()),
{
    assert(!is_suffix_of(start_name(), result_name()));
    assert(!is_suffix_of(start_name(), pen_name()));
    assert(!is_suffix_of(start_name(), acc_name()));
    assert(!is_suffix_of(start_name(), angles_name()));
    assert(!is_suffix_of(start_name(), misc_name()));
    assert(!is_suffix_of(start_name(), sound_name())) by {
        assert(start_name()[0] == 83 && sound_name()[1] == 100);
        lemma_not_suffix_at(start_name(), sound_name(), 0);
    }
    assert(!is_suffix_of(result_name(), start_name())) by {
        assert(result_name()[0] == 65 && start_name()[2] == 97);
        lemma_not_suffix_at(result_name(), start_name(), 0);
    }
    assert(!is_suffix_of(result_name(), pen_name()));
    assert(!is_suffix_of(result_name(), acc_name()));
    assert(!is_suffix_of(result_name(), angles_name()));
    assert(!is_suffix_of(result_name(), misc_name()));
    assert(!is_suffix_of(result_name(), sound_name())) by {
        assert(result_name()[1] == 100 && sound_name()[4] == 110);
        lemma_not_suffix_at(result_name(), sound_name(), 1);
    }
    assert(!is_suffix_of(pen_name(), start_name())) by {
        assert(pen_name()[0] == 115 && start_name()[3] == 114);
        lemma_not_suffix_at(pen_name(), start_name(), 0);
    }
    assert(!is_suffix_of(pen_name(), result_name())) by {
        assert(pen_name()[0] == 115 && result_name()[1] == 100);
        lemma_not_suffix_at(pen_name(), result_name(), 0);
    }
    assert(!is_suffix_of(pen_name(), acc_name()));
    assert(!is_suffix_of(pen_name(), angles_name()));
    assert(!is_suffix_of(pen_name(), misc_name()));
    assert(!is_suffix_of(pen_name(), sound_name())) by {
        assert(pen_name()[0] == 115 && sound_name()[4] == 110);
        lemma_not_suffix_at(pen_name(), sound_name(), 0);
    }
    assert(!is_suffix_of(acc_name(), start_name())) by {
        assert(acc_name()[0] == 115 && start_name()[6] == 101);
        lemma_not_suffix_at(acc_name(), start_name(), 0);
    }
    assert(!is_suffix_of(acc_name(), result_name())) by {
        assert(acc_name()[0] == 115 && result_name()[4] == 101);
        lemma_not_suffix_at(acc_name(), result_name(), 0);
    }
    assert(!is_suffix_of(acc_name(), pen_name())) by {
        assert(acc_name()[0] == 115 && pen_name()[3] == 80);
        lemma_not_suffix_at(acc_name(), pen_name(), 0);
    }
    assert(!is_suffix_of(acc_name(), angles_name()));
    assert(!is_suffix_of(acc_name(), misc_name())) by {
        assert(acc_name()[0] == 115 && misc_name()[2] == 116);
        lemma_not_suffix_at(acc_name(), misc_name(), 0);
    }
    assert(!is_suffix_of(acc_name(), sound_name())) by {
        assert(acc_name()[0] == 115 && sound_name()[7] == 84);
        lemma_not_suffix_at(acc_name(), sound_name(), 0);
    }
    assert(!is_suffix_of(angles_name(), start_name())) by {
        assert(angles_name()[0] == 115 && start_name()[8] == 112);
        lemma_not_suffix_at(angles_name(), start_name(), 0);
    }
    assert(!is_suffix_of(angles_name(), result_name())) by {
        assert(angles_name()[0] == 115 && result_name()[6] == 112);
        lemma_not_suffix_at(angles_name(), result_name(), 0);
    }
    assert(!is_suffix_of(angles_name(), pen_name())) by {
        assert(angles_name()[0] == 115 && pen_name()[5] == 110);
        lemma_not_suffix_at(angles_name(), pen_name(), 0);
    }
    assert(!is_suffix_of(angles_name(), acc_name())) by {
        assert(angles_name()[0] == 115 && acc_name()[2] == 116);
        lemma_not_suffix_at(angles_name(), acc_name(), 0);
    }
    assert(!is_suffix_of(angles_name(), misc_name())) by {
        assert(angles_name()[0] == 115 && misc_name()[4] == 105);
        lemma_not_suffix_at(angles_name(), misc_name(), 0);
    }
    assert(!is_suffix_of(angles_name(), sound_name())) by {
        assert(angles_name()[0] == 115 && sound_name()[9] == 114);
        lemma_not_suffix_at(angles_name(), sound_name(), 0);
    }
    assert(!is_suffix_of(misc_name(), start_name())) by {
        assert(misc_name()[0] == 115 && start_name()[4] == 116);
        lemma_not_suffix_at(misc_name(), start_name(), 0);
    }
    assert(!is_suffix_of(misc_name(), result_name())) by {
        assert(misc_name()[0] == 115 && result_name()[2] == 100);
        lemma_not_suffix_at(misc_name(), result_name(), 0);
    }
    assert(!is_suffix_of(misc_name(), pen_name())) by {
        assert(misc_name()[0] == 115 && pen_name()[1] == 101);
        lemma_not_suffix_at(misc_name(), pen_name(), 0);
    }
    assert(!is_suffix_of(misc_name(), acc_name()));
    assert(!is_suffix_of(misc_name(), angles_name()));
    assert(!is_suffix_of(misc_name(), sound_name())) by {
        assert(misc_name()[0] == 115 && sound_name()[5] == 105);
        lemma_not_suffix_at(misc_name(), sound_name(), 0);
    }
    assert(!is_suffix_of(sound_name(), start_name()));
    assert(!is_suffix_of(sound_name(), result_name()));
    assert(!is_suffix_of(sound_name(), pen_name()));
    assert(!is_suffix_of(sound_name(), acc_name()));
    assert(!is_suffix_of(sound_name(), angles_name()));
    assert(!is_suffix_of(sound_name(), misc_name()));
}

} // verus!
